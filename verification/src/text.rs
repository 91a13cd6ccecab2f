//! Characters and strings: a few functions of the standard library behind
//! contracts, and trimming on top of them.

use vstd::prelude::*;
use vstd::string::*;
use vstd::utf8::{encode_utf8, valid_utf8};

verus! {

/// Whether `c` is white space, as `char::is_whitespace` tells.
pub uninterp spec fn is_white_space(c: char) -> bool;

/// Calls `char::is_whitespace`. The contract only gives the result its name.
#[verifier::external_body]
pub(crate) fn char_is_whitespace(c: char) -> (r: bool)
    ensures
        r == is_white_space(c),
{
    c.is_whitespace()
}

/// The error of `String::from_utf8`, carried through unread.
#[verifier::external_type_specification]
#[verifier::external_body]
pub struct ExFromUtf8Error(std::string::FromUtf8Error);

/// Calls `String::from_utf8`. It succeeds exactly on well-formed UTF-8, and the
/// string it then gives is made of the very bytes it was given.
#[verifier::external_body]
pub(crate) fn string_from_utf8(bytes: Vec<u8>) -> (r: Result<String, std::string::FromUtf8Error>)
    ensures
        r is Ok <==> valid_utf8(bytes@),
        r matches Ok(s) ==> encode_utf8(s@) == bytes@,
{
    String::from_utf8(bytes)
}

/// Calls `String::push`, which appends the character to the string.
#[verifier::external_body]
pub(crate) fn string_push(text: &mut String, c: char)
    ensures
        final(text)@ == old(text)@.push(c),
{
    text.push(c)
}

/// Calls `String::pop`, which removes the last character of the string and
/// returns it, and returns nothing where the string is empty.
#[verifier::external_body]
pub(crate) fn string_pop(text: &mut String) -> (r: Option<char>)
    ensures
        match r {
            Some(c) => old(text)@.len() > 0 && c == old(text)@.last() && final(text)@ == old(
                text,
            )@.drop_last(),
            None => old(text)@.len() == 0 && final(text)@ == old(text)@,
        },
{
    text.pop()
}

/// The characters of `text`.
pub fn chars_of(text: &str) -> (r: Vec<char>)
    ensures
        r@ == text@,
{
    let mut out: Vec<char> = Vec::new();
    for c in it: text.chars()
        invariant
            out@ == it.seq().take(it.index() as int),
            it.seq() == text@,
    {
        out.push(c);
    }
    out
}

/// The string made of the characters of `chars` from place `from` up to
/// place `to`.
pub(crate) fn string_of(chars: &Vec<char>, from: usize, to: usize) -> (r: String)
    requires
        from <= to <= chars@.len(),
    ensures
        r@ == chars@.subrange(from as int, to as int),
{
    let mut out = String::new();
    let mut i: usize = from;
    while i < to
        invariant
            from <= i <= to <= chars@.len(),
            out@ == chars@.subrange(from as int, i as int),
        decreases to - i,
    {
        string_push(&mut out, chars[i]);
        i += 1;
    }
    out
}

/// The character that ends a line.
pub const LINE_FEED: char = '\n';

/// What a character is to the splitting of text into lines and words.
#[derive(Clone, Copy, Debug, PartialEq, Eq, Structural)]
pub enum CharKind {
    /// The line feed, where lines are told apart.
    LineFeed,
    /// White space.
    Space,
    /// Anything else.
    Word,
}

/// The kind of `c`. Where lines are told apart the line feed is of its own
/// kind; where they are not it is what `is_white_space` makes of it.
pub open spec fn kind_of(c: char, lines: bool) -> CharKind {
    if lines && c == LINE_FEED {
        CharKind::LineFeed
    } else if is_white_space(c) {
        CharKind::Space
    } else {
        CharKind::Word
    }
}

/// The kinds of the characters of `text`.
pub open spec fn kinds_of(text: Seq<char>, lines: bool) -> Seq<CharKind> {
    text.map_values(|c: char| kind_of(c, lines))
}

/// The kinds of the characters of `chars`.
pub fn classify(chars: &Vec<char>, lines: bool) -> (r: Vec<CharKind>)
    ensures
        r@ == kinds_of(chars@, lines),
{
    let mut kinds: Vec<CharKind> = Vec::new();
    let mut i: usize = 0;
    while i < chars.len()
        invariant
            i <= chars.len(),
            kinds@ == kinds_of(chars@.take(i as int), lines),
        decreases chars.len() - i,
    {
        let c = chars[i];
        let kind = if lines && c == LINE_FEED {
            CharKind::LineFeed
        } else if char_is_whitespace(c) {
            CharKind::Space
        } else {
            CharKind::Word
        };
        kinds.push(kind);
        i += 1;
    }
    kinds
}

/// The number of places from `from` onwards, one after the other, whose kind
/// is `kind` (where `same` holds) or is another (where it does not).
pub open spec fn run_length(kinds: Seq<CharKind>, from: int, kind: CharKind, same: bool) -> nat
    decreases kinds.len() - from,
{
    if 0 <= from < kinds.len() && (kinds[from] == kind) == same {
        1 + run_length(kinds, from + 1, kind, same)
    } else {
        0
    }
}

/// The number of places before `to`, one before the other, whose kind is
/// `kind`.
pub open spec fn run_length_back(kinds: Seq<CharKind>, to: int, kind: CharKind) -> nat
    decreases to,
{
    if 0 < to <= kinds.len() && kinds[to - 1] == kind {
        1 + run_length_back(kinds, to - 1, kind)
    } else {
        0
    }
}

/// A run ends where the first place stands that does not belong to it.
pub proof fn lemma_run_length(kinds: Seq<CharKind>, from: int, kind: CharKind, same: bool, to: int)
    requires
        0 <= from <= to <= kinds.len(),
        forall|i: int| from <= i < to ==> (#[trigger] kinds[i] == kind) == same,
        to < kinds.len() ==> (kinds[to] == kind) != same,
    ensures
        run_length(kinds, from, kind, same) == to - from,
    decreases to - from,
{
    if from < to {
        lemma_run_length(kinds, from + 1, kind, same, to);
    }
}

/// A run backwards begins behind the last place that does not belong to it.
pub proof fn lemma_run_length_back(kinds: Seq<CharKind>, to: int, kind: CharKind, from: int)
    requires
        0 <= from <= to <= kinds.len(),
        forall|i: int| from <= i < to ==> #[trigger] kinds[i] == kind,
        0 < from ==> kinds[from - 1] != kind,
    ensures
        run_length_back(kinds, to, kind) == to - from,
    decreases to - from,
{
    if from < to {
        lemma_run_length_back(kinds, to - 1, kind, from);
    }
}

/// The place where the run from `from` onwards ends; `from` itself where it
/// lies beyond the last place.
pub fn run_end(kinds: &Vec<CharKind>, from: usize, kind: CharKind, same: bool) -> (r: usize)
    ensures
        r == from + run_length(kinds@, from as int, kind, same),
        from <= kinds@.len() ==> r <= kinds@.len(),
{
    if from >= kinds.len() {
        return from;
    }
    let mut i: usize = from;
    while i < kinds.len() && (kinds[i] == kind) == same
        invariant
            from <= i <= kinds@.len(),
            forall|k: int| from <= k < i ==> (#[trigger] kinds@[k] == kind) == same,
        decreases kinds.len() - i,
    {
        i += 1;
    }
    proof {
        lemma_run_length(kinds@, from as int, kind, same, i as int);
    }
    i
}

/// The place where the run of `kind` before `to` begins; `to` itself where it
/// lies beyond the last place.
pub fn run_start(kinds: &Vec<CharKind>, to: usize, kind: CharKind) -> (r: usize)
    ensures
        r == to - run_length_back(kinds@, to as int, kind),
{
    if to > kinds.len() {
        return to;
    }
    let mut i: usize = to;
    while i > 0 && kinds[i - 1] == kind
        invariant
            i <= to <= kinds@.len(),
            forall|k: int| i <= k < to ==> #[trigger] kinds@[k] == kind,
        decreases i,
    {
        i -= 1;
    }
    proof {
        lemma_run_length_back(kinds@, to as int, kind, i as int);
    }
    i
}

/// The places between which `kinds` is left when the space at its head and
/// at its end is taken off: from the first, up to the second.
pub open spec fn trimmed_range(kinds: Seq<CharKind>) -> (int, int) {
    let from = run_length(kinds, 0, CharKind::Space, true) as int;
    if from == kinds.len() {
        (from, from)
    } else {
        (from, kinds.len() - run_length_back(kinds, kinds.len() as int, CharKind::Space))
    }
}

/// A run stays within the sequence.
pub proof fn lemma_run_length_bound(kinds: Seq<CharKind>, from: int, kind: CharKind, same: bool)
    requires
        0 <= from <= kinds.len(),
    ensures
        from + run_length(kinds, from, kind, same) <= kinds.len(),
        from + run_length(kinds, from, kind, same) < kinds.len() ==> (kinds[from + run_length(
            kinds,
            from,
            kind,
            same,
        )] == kind) != same,
    decreases kinds.len() - from,
{
    if from < kinds.len() && (kinds[from] == kind) == same {
        lemma_run_length_bound(kinds, from + 1, kind, same);
    }
}

/// A run backwards ends at a place that does not belong to it.
pub proof fn lemma_run_length_back_bound(kinds: Seq<CharKind>, to: int, kind: CharKind)
    requires
        0 <= to <= kinds.len(),
    ensures
        run_length_back(kinds, to, kind) <= to,
        run_length_back(kinds, to, kind) < to ==> kinds[to - run_length_back(kinds, to, kind) - 1]
            != kind,
    decreases to,
{
    if 0 < to && kinds[to - 1] == kind {
        lemma_run_length_back_bound(kinds, to - 1, kind);
    }
}

/// What is left of a range is a range: its end does not come before its
/// beginning, and both lie within the sequence.
pub proof fn lemma_trimmed_range(kinds: Seq<CharKind>)
    ensures
        0 <= trimmed_range(kinds).0 <= trimmed_range(kinds).1 <= kinds.len(),
{
    let n = kinds.len() as int;
    lemma_run_length_bound(kinds, 0, CharKind::Space, true);
    lemma_run_length_back_bound(kinds, n, CharKind::Space);
    let from = run_length(kinds, 0, CharKind::Space, true) as int;
    let back = run_length_back(kinds, n, CharKind::Space) as int;
    if from < n && n - back <= from {
        lemma_run_length_back_holds(kinds, n, CharKind::Space, from);
    }
}

/// Every place within a run backwards is of the run's kind.
pub proof fn lemma_run_length_back_holds(kinds: Seq<CharKind>, to: int, kind: CharKind, i: int)
    requires
        0 <= to <= kinds.len(),
        to - run_length_back(kinds, to, kind) <= i < to,
    ensures
        kinds[i] == kind,
    decreases to,
{
    if i < to - 1 {
        lemma_run_length_back_holds(kinds, to - 1, kind, i);
    }
}

/// The places between which `kinds` is left when the space at its head and
/// at its end is taken off.
pub fn trim_range(kinds: &Vec<CharKind>) -> (r: (usize, usize))
    ensures
        (r.0 as int, r.1 as int) == trimmed_range(kinds@),
        r.0 <= r.1 <= kinds@.len(),
{
    proof {
        lemma_trimmed_range(kinds@);
    }
    let from = run_end(kinds, 0, CharKind::Space, true);
    if from == kinds.len() {
        (from, from)
    } else {
        (from, run_start(kinds, kinds.len(), CharKind::Space))
    }
}

/// `text` without the white space at its head and at its end.
pub open spec fn trimmed(text: Seq<char>) -> Seq<char> {
    let range = trimmed_range(kinds_of(text, false));
    text.subrange(range.0, range.1)
}

/// `text` without the white space at its head and at its end.
pub fn trim(text: &str) -> (r: String)
    ensures
        r@ == trimmed(text@),
{
    let chars = chars_of(text);
    let kinds = classify(&chars, false);
    let range = trim_range(&kinds);
    string_of(&chars, range.0, range.1)
}

} // verus!
