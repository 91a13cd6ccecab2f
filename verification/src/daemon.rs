//! What is handed to the tools of the daemon and read from what they print:
//! the target of a bundle, and the process ids in a listing of processes.

use vstd::prelude::*;
use vstd::string::*;
use crate::presence::names_of;
use crate::text::{
    chars_of, classify, kinds_of, run_end, run_length, string_of, trim, trimmed, CharKind,
};

verus! {

/// What stands before a peer's name in the target of a bundle.
pub const TARGET_SCHEME: &'static str = "dtn://";

/// What stands behind a peer's name in the target of a bundle.
pub const TARGET_ENDPOINT: &'static str = "/incoming";

/// The target of a bundle for the peer `name`.
pub open spec fn target_of(name: Seq<char>) -> Seq<char> {
    TARGET_SCHEME@ + trimmed(name) + TARGET_ENDPOINT@
}

/// The target of a bundle for the peer `name`: the scheme, the name without
/// the white space around it, and the endpoint.
pub fn incoming_target(name: &str) -> (r: String)
    ensures
        r@ == target_of(name@),
{
    let mut target = TARGET_SCHEME.to_owned();
    let peer = trim(name);
    target.append(peer.as_str());
    target.append(TARGET_ENDPOINT);
    target
}

/// Where the first word of each line stands, from place `from` onwards, line
/// by line: the place where the word begins, and the place behind it. A line
/// without a word gives nothing.
pub open spec fn first_word_ranges(kinds: Seq<CharKind>, from: int) -> Seq<(int, int)>
    decreases kinds.len() - from,
{
    if from < 0 || from >= kinds.len() {
        Seq::empty()
    } else {
        let begin = from + run_length(kinds, from, CharKind::Space, true);
        let end = begin + run_length(kinds, begin, CharKind::Word, true);
        let line_end = end + run_length(kinds, end, CharKind::LineFeed, false);
        let next = if line_end < kinds.len() {
            line_end + 1
        } else {
            kinds.len() as int
        };
        if begin < end {
            seq![(begin, end)] + first_word_ranges(kinds, next)
        } else {
            first_word_ranges(kinds, next)
        }
    }
}

/// The first word of each line of `text` that has one, line by line.
pub open spec fn first_fields(text: Seq<char>) -> Seq<Seq<char>> {
    first_word_ranges(kinds_of(text, true), 0).map_values(
        |range: (int, int)| text.subrange(range.0, range.1),
    )
}

/// Ranges of places, as plain values.
pub open spec fn ranges_of(ranges: Seq<(usize, usize)>) -> Seq<(int, int)> {
    ranges.map_values(|range: (usize, usize)| (range.0 as int, range.1 as int))
}

/// Where the first word of each line stands, line by line.
pub fn word_ranges(kinds: &Vec<CharKind>) -> (r: Vec<(usize, usize)>)
    ensures
        ranges_of(r@) == first_word_ranges(kinds@, 0),
        forall|i: int| 0 <= i < r@.len() ==> (#[trigger] r@[i]).0 < r@[i].1 <= kinds@.len(),
{
    let n = kinds.len();
    let mut ranges: Vec<(usize, usize)> = Vec::new();
    let mut from: usize = 0;
    while from < n
        invariant
            from <= n,
            n == kinds@.len(),
            ranges_of(ranges@) + first_word_ranges(kinds@, from as int) == first_word_ranges(kinds@, 0),
            forall|i: int| 0 <= i < ranges@.len() ==> (#[trigger] ranges@[i]).0 < ranges@[i].1 <= n,
        decreases n - from,
    {
        let begin = run_end(kinds, from, CharKind::Space, true);
        let end = run_end(kinds, begin, CharKind::Word, true);
        let line_end = run_end(kinds, end, CharKind::LineFeed, false);
        let next = if line_end < n {
            line_end + 1
        } else {
            n
        };
        if begin < end {
            ranges.push((begin, end));
        }
        from = next;
    }
    ranges
}

/// The process ids in a listing of processes: the first word of each line.
/// A line without a word gives none.
pub fn process_ids(listing: &str) -> (r: Vec<String>)
    ensures
        names_of(r@) == first_fields(listing@),
{
    let chars = chars_of(listing);
    let kinds = classify(&chars, true);
    let ranges = word_ranges(&kinds);
    let ghost pick = |range: (int, int)| listing@.subrange(range.0, range.1);
    let mut ids: Vec<String> = Vec::new();
    let mut i: usize = 0;
    while i < ranges.len()
        invariant
            i <= ranges.len(),
            chars@ == listing@,
            kinds@.len() == chars@.len(),
            pick == |range: (int, int)| listing@.subrange(range.0, range.1),
            forall|k: int| 0 <= k < ranges@.len() ==> (#[trigger] ranges@[k]).0 < ranges@[k].1 <= kinds@.len(),
            names_of(ids@) == ranges_of(ranges@).take(i as int).map_values(pick),
        decreases ranges.len() - i,
    {
        let range = ranges[i];
        let id = string_of(&chars, range.0, range.1);
        ids.push(id);
        assert(ranges_of(ranges@).take(i + 1).map_values(pick) =~= ranges_of(ranges@).take(
            i as int,
        ).map_values(pick).push(pick(ranges_of(ranges@)[i as int])));
        i += 1;
    }
    ids
}

} // verus!
