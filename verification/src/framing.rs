//! Payloads written in the framing that the decoder reads, and what decoding
//! them gives back.

use vstd::prelude::*;
use vstd::string::*;
use vstd::utf8::*;
use crate::decode::{
    decoded_field, decoded_hex, decoded_payload, length_corrected, text_between, without_tag,
    DecodeError, DecodeMode, DecodedText, MESSAGE_END, MESSAGE_START, NAME_END, NAME_START,
    SHORT_MESSAGE_MAX, TAG_DIGITS,
};
use crate::hexcode::{hex_text, lemma_hex_text_round_trip};
use crate::pattern::{
    first_occurrence, lemma_first_occurrence_is_least, lemma_first_occurrence_unique, occurs_at,
};

verus! {

/// `pat` occurs somewhere in `s`.
pub open spec fn occurs(s: Seq<u8>, pat: Seq<u8>) -> bool {
    exists|i: int| occurs_at(s, pat, i)
}

/// The hexadecimal text of a string's UTF-8 bytes.
pub open spec fn hex_of(text: Seq<char>) -> Seq<u8> {
    hex_text(encode_utf8(text))
}

/// A payload that holds `sender` between the name markers and, between the
/// message markers, `tag` followed by `message`.
pub open spec fn framed(sender: Seq<char>, tag: Seq<u8>, message: Seq<char>) -> Seq<u8> {
    NAME_START.spec_bytes() + hex_of(sender) + NAME_END.spec_bytes() + MESSAGE_START.spec_bytes()
        + tag + hex_of(message) + MESSAGE_END.spec_bytes()
}

/// The bytes of the four markers.
pub proof fn lemma_marker_bytes()
    ensures
        NAME_START.spec_bytes() == seq![0x32u8, 0x30u8, 0x31u8, 0x36u8, 0x35u8, 0x32u8, 0x66u8, 0x32u8, 0x66u8],
        NAME_END.spec_bytes() == seq![
            0x32u8,
            0x66u8,
            0x38u8,
            0x32u8,
            0x30u8,
            0x31u8,
            0x36u8,
            0x35u8,
            0x32u8,
            0x66u8,
        ],
        MESSAGE_START.spec_bytes() == seq![0x30u8, 0x31u8, 0x30u8, 0x31u8, 0x30u8, 0x30u8, 0x30u8, 0x30u8],
        MESSAGE_END.spec_bytes() == seq![0x30u8, 0x61u8, 0x66u8, 0x66u8],
{
    reveal_strlit("201652f2f");
    reveal_strlit("2f8201652f");
    reveal_strlit("01010000");
    reveal_strlit("0aff");
    is_ascii_spec_bytes(NAME_START);
    is_ascii_spec_bytes(NAME_END);
    is_ascii_spec_bytes(MESSAGE_START);
    is_ascii_spec_bytes(MESSAGE_END);
    assert(NAME_START.spec_bytes() =~= seq![0x32u8, 0x30u8, 0x31u8, 0x36u8, 0x35u8, 0x32u8, 0x66u8, 0x32u8, 0x66u8]);
    assert(NAME_END.spec_bytes() =~= seq![
        0x32u8,
        0x66u8,
        0x38u8,
        0x32u8,
        0x30u8,
        0x31u8,
        0x36u8,
        0x35u8,
        0x32u8,
        0x66u8,
    ]);
    assert(MESSAGE_START.spec_bytes() =~= seq![0x30u8, 0x31u8, 0x30u8, 0x31u8, 0x30u8, 0x30u8, 0x30u8, 0x30u8]);
    assert(MESSAGE_END.spec_bytes() =~= seq![0x30u8, 0x61u8, 0x66u8, 0x66u8]);
}

/// A window of `s` that differs from `pat` in one place is no occurrence.
proof fn lemma_differs(s: Seq<u8>, pat: Seq<u8>, j: int, m: int)
    requires
        0 <= m < pat.len(),
        0 <= j,
        j + pat.len() <= s.len() ==> s[j + m] != pat[m],
    ensures
        !occurs_at(s, pat, j),
{
    if occurs_at(s, pat, j) {
        assert(s.subrange(j, j + pat.len())[m] == s[j + m]);
    }
}

/// An occurrence in `s` that lies within a part of `s` is an occurrence in
/// that part.
proof fn lemma_occurs_within(s: Seq<u8>, part: Seq<u8>, offset: int, pat: Seq<u8>, j: int)
    requires
        0 <= offset,
        offset + part.len() <= s.len(),
        forall|i: int| 0 <= i < part.len() ==> s[offset + i] == #[trigger] part[i],
        offset <= j,
        j + pat.len() <= offset + part.len(),
        occurs_at(s, pat, j),
    ensures
        occurs_at(part, pat, j - offset),
{
    assert(part.subrange(j - offset, j - offset + pat.len()) =~= s.subrange(j, j + pat.len()));
}

/// In the hexadecimal text of ASCII, every digit at an even place stands for
/// a high half below eight.
proof fn lemma_ascii_high_digits(text: Seq<char>)
    requires
        is_ascii_chars(text),
    ensures
        hex_of(text).len() == 2 * text.len(),
        forall|i: int|
            0 <= i < hex_of(text).len() && i % 2 == 0 ==> 0x30 <= #[trigger] hex_of(text)[i] <= 0x37,
{
    is_ascii_chars_encode_utf8(text);
    is_ascii_chars_nat_bound(text);
    let bytes = encode_utf8(text);
    assert forall|i: int| 0 <= i < hex_of(text).len() && i % 2 == 0 implies 0x30
        <= #[trigger] hex_of(text)[i] <= 0x37 by {
        let k = i / 2;
        assert(bytes[k] == text[k] as u8);
        assert((text[k] as nat) < 128);
        assert(0 <= bytes[k] as int / 16 < 8);
    }
}

/// A field that was written as the hexadecimal text of a string decodes to
/// that string.
pub proof fn lemma_hex_of_decodes(text: Seq<char>)
    ensures
        decoded_hex(hex_of(text)) == Ok::<Seq<char>, DecodeError>(text),
{
    lemma_hex_text_round_trip(encode_utf8(text));
    encode_utf8_valid_utf8(text);
    encode_utf8_decode_utf8(text);
}

/// `p` is the name markers around `hn` and then the message markers around
/// `field`, place by place.
spec fn laid_out(p: Seq<u8>, hn: Seq<u8>, field: Seq<u8>) -> bool {
    let a = NAME_START.spec_bytes();
    let b = NAME_END.spec_bytes();
    let c = MESSAGE_START.spec_bytes();
    let d = MESSAGE_END.spec_bytes();
    &&& p.len() == 9 + hn.len() + 10 + 8 + field.len() + 4
    &&& forall|i: int| 0 <= i < 9 ==> p[i] == a[i]
    &&& forall|i: int| 0 <= i < hn.len() ==> p[9 + i] == #[trigger] hn[i]
    &&& forall|i: int| 0 <= i < 10 ==> p[9 + hn.len() + i] == b[i]
    &&& forall|i: int| 0 <= i < 8 ==> p[19 + hn.len() + i] == c[i]
    &&& forall|i: int| 0 <= i < field.len() ==> p[27 + hn.len() + i] == #[trigger] field[i]
    &&& forall|i: int| 0 <= i < 4 ==> p[27 + hn.len() + field.len() + i] == d[i]
}

proof fn lemma_framed_laid_out(sender: Seq<char>, tag: Seq<u8>, message: Seq<char>)
    ensures
        laid_out(framed(sender, tag, message), hex_of(sender), tag + hex_of(message)),
{
    lemma_marker_bytes();
}

/// In a payload laid out around the hexadecimal text of an ASCII sender, the
/// name field is that text.
proof fn lemma_name_field(p: Seq<u8>, sender: Seq<char>, field: Seq<u8>)
    requires
        is_ascii_chars(sender),
        laid_out(p, hex_of(sender), field),
    ensures
        text_between(p, NAME_START.spec_bytes(), NAME_END.spec_bytes(), DecodeMode::Name) == Some(
            hex_of(sender),
        ),
{
    lemma_marker_bytes();
    lemma_ascii_high_digits(sender);
    let a = NAME_START.spec_bytes();
    let b = NAME_END.spec_bytes();
    let hn = hex_of(sender);
    let n = hn.len() as int;
    assert(p.subrange(0, 9) =~= a);
    lemma_first_occurrence_unique(p, a, 0, 0);
    assert(p.subrange(9 + n, 19 + n) =~= b);
    assert forall|j: int| 9 <= j < 9 + n implies !occurs_at(p, b, j) by {
        if (j - 9) % 2 == 1 {
            if j + 1 < 9 + n {
                assert(p[j + 1] == hn[j + 1 - 9]);
            } else {
                assert(p[j + 1] == b[0]);
            }
            lemma_differs(p, b, j, 1);
        } else {
            if j + 2 < 9 + n {
                assert(p[j + 2] == hn[j + 2 - 9]);
            } else {
                assert(p[j + 2] == b[0]);
            }
            lemma_differs(p, b, j, 2);
        }
    }
    lemma_first_occurrence_unique(p, b, 9, 9 + n);
    assert(p.subrange(9, 9 + n) =~= hn);
}

/// In a payload laid out around a name text and a message field that hold no
/// marker of the message themselves, the message field is found whole.
proof fn lemma_message_field(p: Seq<u8>, hn: Seq<u8>, field: Seq<u8>)
    requires
        laid_out(p, hn, field),
        !occurs(hn, MESSAGE_START.spec_bytes()),
        !occurs(field, MESSAGE_END.spec_bytes()),
    ensures
        text_between(p, MESSAGE_START.spec_bytes(), MESSAGE_END.spec_bytes(), DecodeMode::Message)
            == Some(without_tag(field)),
{
    lemma_marker_bytes();
    let b = NAME_END.spec_bytes();
    let c = MESSAGE_START.spec_bytes();
    let d = MESSAGE_END.spec_bytes();
    let n = hn.len() as int;
    let f = field.len() as int;
    assert forall|j: int| 0 <= j < 19 + n implies !occurs_at(p, c, j) by {
        if j == 0 {
            lemma_differs(p, c, j, 0);
        } else if j <= 8 {
            lemma_differs(p, c, j, 8 - j);
        } else if j < 9 + n {
            if j + 8 <= 9 + n {
                if occurs_at(p, c, j) {
                    lemma_occurs_within(p, hn, 9, c, j);
                    assert(occurs_at(hn, c, j - 9));
                }
            } else {
                assert(p[9 + n] == b[0]);
                lemma_differs(p, c, j, 9 + n - j);
            }
        } else if j <= 10 + n {
            assert(p[j] == b[j - 9 - n]);
            lemma_differs(p, c, j, 0);
        } else {
            assert(p[18 + n] == b[9]);
            lemma_differs(p, c, j, 18 + n - j);
        }
    }
    assert(p.subrange(19 + n, 27 + n) =~= c);
    lemma_first_occurrence_unique(p, c, 0, 19 + n);
    let e = 27 + n + f;
    assert forall|j: int| 27 + n <= j < e implies !occurs_at(p, d, j) by {
        if j + 4 <= e {
            if occurs_at(p, d, j) {
                lemma_occurs_within(p, field, 27 + n, d, j);
                assert(occurs_at(field, d, j - 27 - n));
            }
        } else {
            assert(p[e] == d[0]);
            lemma_differs(p, d, j, e - j);
        }
    }
    assert(p.subrange(e, e + 4) =~= d);
    lemma_first_occurrence_unique(p, d, 27 + n, e);
    assert(p.subrange(27 + n, e) =~= field);
}

/// What decoding a framed payload gives: the sender, and the text of the
/// message field after the length correction. A text of more than
/// `SHORT_MESSAGE_MAX` characters loses its first character, a shorter one
/// stays whole.
///
/// The markers are found by search, so this holds only where neither field
/// brings a marker of the message with it: the opening one in the sender's
/// digits, or the closing one in the tag and the text's digits.
pub proof fn lemma_decode_framed(sender: Seq<char>, tag: Seq<u8>, text: Seq<char>)
    requires
        is_ascii_chars(sender),
        tag.len() == TAG_DIGITS,
        !occurs(hex_of(sender), MESSAGE_START.spec_bytes()),
        !occurs(tag + hex_of(text), MESSAGE_END.spec_bytes()),
    ensures
        decoded_payload(framed(sender, tag, text)) == Ok::<DecodedText, DecodeError>(
            DecodedText { sender, message: length_corrected(text) },
        ),
{
    let p = framed(sender, tag, text);
    let field = tag + hex_of(text);
    lemma_framed_laid_out(sender, tag, text);
    lemma_name_field(p, sender, field);
    lemma_message_field(p, hex_of(sender), field);
    assert(without_tag(field) =~= hex_of(text));
    lemma_hex_of_decodes(sender);
    lemma_hex_of_decodes(text);
}

/// Decoding gives back what was framed: for an ASCII sender and a message of
/// at most `SHORT_MESSAGE_MAX` characters behind a tag of `TAG_DIGITS`
/// digits, the payload `framed(sender, tag, message)` decodes to that sender
/// and that message, under the conditions of `lemma_decode_framed`.
pub proof fn lemma_decode_round_trip(sender: Seq<char>, tag: Seq<u8>, message: Seq<char>)
    requires
        is_ascii_chars(sender),
        tag.len() == TAG_DIGITS,
        message.len() <= SHORT_MESSAGE_MAX,
        !occurs(hex_of(sender), MESSAGE_START.spec_bytes()),
        !occurs(tag + hex_of(message), MESSAGE_END.spec_bytes()),
    ensures
        decoded_payload(framed(sender, tag, message)) == Ok::<DecodedText, DecodeError>(
            DecodedText { sender, message },
        ),
{
    lemma_decode_framed(sender, tag, message);
}

/// The digits of a sender made of ASCII from the space upwards hold no
/// opening marker of the message.
pub proof fn lemma_plain_sender_holds_no_marker(sender: Seq<char>)
    requires
        forall|i: int| 0 <= i < sender.len() ==> ' ' <= #[trigger] sender[i] <= '\u{7f}',
    ensures
        is_ascii_chars(sender),
        !occurs(hex_of(sender), MESSAGE_START.spec_bytes()),
{
    lemma_marker_bytes();
    is_ascii_chars_encode_utf8(sender);
    let c = MESSAGE_START.spec_bytes();
    let hn = hex_of(sender);
    let bytes = encode_utf8(sender);
    assert forall|j: int| !occurs_at(hn, c, j) by {
        if 0 <= j && j + 8 <= hn.len() {
            let m: int = if j % 2 == 0 {
                0
            } else {
                1
            };
            let k = (j + m) / 2;
            assert(bytes[k] == sender[k] as u8);
            assert(' ' <= sender[k] <= '\u{7f}');
            assert(2 <= bytes[k] as int / 16 < 8);
            assert(0x32 <= hn[j + m] <= 0x37);
            lemma_differs(hn, c, j, m);
        }
    }
}

/// A tag and the digits of an ASCII message hold no closing marker of the
/// message.
pub proof fn lemma_ascii_message_holds_no_marker(tag: Seq<u8>, message: Seq<char>)
    requires
        tag.len() == TAG_DIGITS,
        is_ascii_chars(message),
    ensures
        !occurs(tag + hex_of(message), MESSAGE_END.spec_bytes()),
{
    lemma_marker_bytes();
    lemma_ascii_high_digits(message);
    let d = MESSAGE_END.spec_bytes();
    let hm = hex_of(message);
    let field = tag + hm;
    assert forall|j: int| !occurs_at(field, d, j) by {
        if 0 <= j && j + 4 <= field.len() {
            let m: int = if j % 2 == 0 {
                2
            } else {
                3
            };
            assert(field[j + m] == hm[j + m - 2]);
            lemma_differs(field, d, j, m);
        }
    }
}

/// Decoding gives back what was framed, for plain text: a sender made of
/// ASCII from the space upwards, and an ASCII message of at most
/// `SHORT_MESSAGE_MAX` characters behind any tag of `TAG_DIGITS` digits.
pub proof fn lemma_decode_round_trip_plain(sender: Seq<char>, tag: Seq<u8>, message: Seq<char>)
    requires
        forall|i: int| 0 <= i < sender.len() ==> ' ' <= #[trigger] sender[i] <= '\u{7f}',
        tag.len() == TAG_DIGITS,
        is_ascii_chars(message),
        message.len() <= SHORT_MESSAGE_MAX,
    ensures
        decoded_payload(framed(sender, tag, message)) == Ok::<DecodedText, DecodeError>(
            DecodedText { sender, message },
        ),
{
    lemma_plain_sender_holds_no_marker(sender);
    lemma_ascii_message_holds_no_marker(tag, message);
    lemma_decode_round_trip(sender, tag, message);
}

/// A payload without the opening or the closing marker of the message does
/// not decode; where its name field does decode, the error says that a
/// marker was not found.
pub proof fn lemma_missing_message_marker(payload: Seq<u8>)
    requires
        !occurs(payload, MESSAGE_START.spec_bytes()) || !occurs(payload, MESSAGE_END.spec_bytes()),
    ensures
        decoded_payload(payload) is Err,
        decoded_field(payload, NAME_START.spec_bytes(), NAME_END.spec_bytes(), DecodeMode::Name) is Ok
            ==> decoded_payload(payload) == Err::<DecodedText, DecodeError>(
            DecodeError::MarkerNotFound,
        ),
{
    let c = MESSAGE_START.spec_bytes();
    let d = MESSAGE_END.spec_bytes();
    match first_occurrence(payload, c, 0) {
        None => {},
        Some(at) => {
            lemma_first_occurrence_is_least(payload, c, 0, at);
            match first_occurrence(payload, d, at + c.len()) {
                None => {},
                Some(b) => {
                    lemma_first_occurrence_is_least(payload, d, at + c.len(), b);
                },
            }
        },
    }
}

/// A payload without the opening or the closing marker of the name does not
/// decode: a marker was not found.
pub proof fn lemma_missing_name_marker(payload: Seq<u8>)
    requires
        !occurs(payload, NAME_START.spec_bytes()) || !occurs(payload, NAME_END.spec_bytes()),
    ensures
        decoded_payload(payload) == Err::<DecodedText, DecodeError>(DecodeError::MarkerNotFound),
{
    let a = NAME_START.spec_bytes();
    let b = NAME_END.spec_bytes();
    match first_occurrence(payload, a, 0) {
        None => {},
        Some(at) => {
            lemma_first_occurrence_is_least(payload, a, 0, at);
            match first_occurrence(payload, b, at + a.len()) {
                None => {},
                Some(e) => {
                    lemma_first_occurrence_is_least(payload, b, at + a.len(), e);
                },
            }
        },
    }
}

/// The empty payload does not decode.
pub proof fn lemma_empty_payload()
    ensures
        decoded_payload(Seq::empty()) == Err::<DecodedText, DecodeError>(DecodeError::MarkerNotFound),
{
    lemma_marker_bytes();
    let a = NAME_START.spec_bytes();
    assert forall|j: int| !occurs_at(Seq::<u8>::empty(), a, j) by {}
    lemma_missing_name_marker(Seq::empty());
}

} // verus!
