//! Extraction of the sender and the message text from the hexadecimal dump of
//! a bundle payload.
//!
//! The two fields are found by fixed markers, not by parsing the framing
//! around them. A marker that happens to occur inside a field's own digits is
//! taken for the real one.

use vstd::prelude::*;
use vstd::slice::slice_subrange;
use vstd::string::*;
use vstd::utf8::*;
use crate::hexcode::{hex_bytes, hex_decode, is_hex_text};
use crate::pattern::{find_from, first_occurrence, lemma_first_occurrence_is_least};
use crate::text::string_from_utf8;

verus! {

/// The marker before the sender's hexadecimal text.
pub const NAME_START: &'static str = "201652f2f";

/// The marker after the sender's hexadecimal text.
pub const NAME_END: &'static str = "2f8201652f";

/// The marker before the message field.
pub const MESSAGE_START: &'static str = "01010000";

/// The marker after the message field.
pub const MESSAGE_END: &'static str = "0aff";

/// The number of digits at the head of the message field that hold a tag.
pub const TAG_DIGITS: usize = 2;

/// The longest message text, in characters, that comes with a tag of one byte.
pub const SHORT_MESSAGE_MAX: usize = 31;

/// Which of the two fields is being read.
#[derive(Clone, Copy, Debug, PartialEq, Eq, Structural)]
pub enum DecodeMode {
    Name,
    Message,
}

/// Why a payload could not be decoded.
#[derive(Clone, Copy, Debug, PartialEq, Eq, Structural)]
pub enum DecodeError {
    /// A marker is absent, or the closing marker does not follow the opening one.
    MarkerNotFound,
    /// The text of a field is not an even number of hexadecimal digits.
    InvalidHex,
    /// The bytes of a field are not well-formed UTF-8.
    InvalidUtf8,
}

/// What a decoded payload says, as plain text.
pub ghost struct DecodedText {
    pub sender: Seq<char>,
    pub message: Seq<char>,
}

/// The sender and the message text of one payload.
#[derive(Debug)]
pub struct DecodedMessage {
    pub sender: String,
    pub message: String,
}

impl View for DecodedMessage {
    type V = DecodedText;

    open spec fn view(&self) -> DecodedText {
        DecodedText { sender: self.sender@, message: self.message@ }
    }
}

/// A field without its leading tag digits; a field shorter than the tag is
/// all tag.
pub open spec fn without_tag(field: Seq<u8>) -> Seq<u8> {
    if field.len() >= TAG_DIGITS {
        field.skip(TAG_DIGITS as int)
    } else {
        Seq::empty()
    }
}

/// The text of `s` from the end of the first `start` to the first `end` that
/// begins at or after that point, without the tag digits where the field is
/// the message.
pub open spec fn text_between(s: Seq<u8>, start: Seq<u8>, end: Seq<u8>, mode: DecodeMode) -> Option<Seq<u8>> {
    match first_occurrence(s, start, 0) {
        None => None,
        Some(a) => match first_occurrence(s, end, a + start.len()) {
            None => None,
            Some(b) => {
                let field = s.subrange(a + start.len(), b);
                match mode {
                    DecodeMode::Name => Some(field),
                    DecodeMode::Message => Some(without_tag(field)),
                }
            },
        },
    }
}

/// The text that hexadecimal digits stand for.
pub open spec fn decoded_hex(hex: Seq<u8>) -> Result<Seq<char>, DecodeError> {
    if !is_hex_text(hex) {
        Err(DecodeError::InvalidHex)
    } else if !valid_utf8(hex_bytes(hex)) {
        Err(DecodeError::InvalidUtf8)
    } else {
        Ok(decode_utf8(hex_bytes(hex)))
    }
}

/// A message text of more than `SHORT_MESSAGE_MAX` characters came with a
/// second tag byte, which was decoded as its first character: that character
/// is dropped.
pub open spec fn length_corrected(text: Seq<char>) -> Seq<char> {
    if text.len() > SHORT_MESSAGE_MAX {
        text.drop_first()
    } else {
        text
    }
}

/// One field of a payload, decoded.
pub open spec fn decoded_field(payload: Seq<u8>, start: Seq<u8>, end: Seq<u8>, mode: DecodeMode) -> Result<Seq<char>, DecodeError> {
    match text_between(payload, start, end, mode) {
        None => Err(DecodeError::MarkerNotFound),
        Some(hex) => decoded_hex(hex),
    }
}

/// What a payload says: the sender first, then the message. The first field
/// that fails decides the error.
pub open spec fn decoded_payload(payload: Seq<u8>) -> Result<DecodedText, DecodeError> {
    match decoded_field(payload, NAME_START.spec_bytes(), NAME_END.spec_bytes(), DecodeMode::Name) {
        Err(e) => Err(e),
        Ok(sender) => match decoded_field(
            payload,
            MESSAGE_START.spec_bytes(),
            MESSAGE_END.spec_bytes(),
            DecodeMode::Message,
        ) {
            Err(e) => Err(e),
            Ok(text) => Ok(DecodedText { sender, message: length_corrected(text) }),
        },
    }
}

/// The text of `s` between the markers `start` and `end`, as bytes.
pub fn get_text_between_strings<'a>(s: &'a str, start: &str, end: &str, mode: DecodeMode) -> (r: Option<&'a [u8]>)
    ensures
        match r {
            Some(text) => text_between(s.spec_bytes(), start.spec_bytes(), end.spec_bytes(), mode) == Some(text@),
            None => text_between(s.spec_bytes(), start.spec_bytes(), end.spec_bytes(), mode) is None,
        },
{
    let bytes = s.as_bytes();
    let opening = start.as_bytes();
    let closing = end.as_bytes();
    match find_from(bytes, opening, 0) {
        None => None,
        Some(a) => {
            proof {
                lemma_first_occurrence_is_least(bytes@, opening@, 0, a as int);
                assert(a + opening.len() <= bytes.len());
            }
            let begin = a + opening.len();
            match find_from(bytes, closing, begin) {
                None => None,
                Some(b) => {
                    proof {
                        lemma_first_occurrence_is_least(bytes@, closing@, begin as int, b as int);
                    }
                    match mode {
                        DecodeMode::Name => Some(slice_subrange(bytes, begin, b)),
                        DecodeMode::Message => {
                            if b - begin >= TAG_DIGITS {
                                Some(slice_subrange(bytes, begin + TAG_DIGITS, b))
                            } else {
                                Some(slice_subrange(bytes, b, b))
                            }
                        },
                    }
                },
            }
        },
    }
}

/// Decodes hexadecimal digits into the text whose UTF-8 bytes they spell.
pub fn decode_hex(hex: &[u8]) -> (r: Result<String, DecodeError>)
    ensures
        match r {
            Ok(text) => decoded_hex(hex@) == Ok::<Seq<char>, DecodeError>(text@),
            Err(e) => decoded_hex(hex@) == Err::<Seq<char>, DecodeError>(e),
        },
{
    match hex_decode(hex) {
        Err(_) => Err(DecodeError::InvalidHex),
        Ok(bytes) => {
            match string_from_utf8(bytes) {
                Err(_) => Err(DecodeError::InvalidUtf8),
                Ok(text) => {
                    proof {
                        encode_utf8_decode_utf8(text@);
                    }
                    Ok(text)
                },
            }
        },
    }
}

/// Drops the first character of a text of more than `SHORT_MESSAGE_MAX`
/// characters, and leaves a shorter one as it is.
pub fn correct_length(text: String) -> (r: String)
    ensures
        r@ == length_corrected(text@),
        text@.len() <= SHORT_MESSAGE_MAX ==> r@ == text@,
        text@.len() > SHORT_MESSAGE_MAX ==> r@ == text@.drop_first(),
{
    let n = text.as_str().unicode_len();
    if n > SHORT_MESSAGE_MAX {
        let rest = text.as_str().substring_char(1, n);
        rest.to_owned()
    } else {
        text
    }
}

/// Extracts the sender's name and the message text from the hexadecimal dump
/// of a bundle payload.
pub fn extract_source_message(the_string: String) -> (r: Result<DecodedMessage, DecodeError>)
    ensures
        match r {
            Ok(m) => decoded_payload(encode_utf8(the_string@)) == Ok::<DecodedText, DecodeError>(m@),
            Err(e) => decoded_payload(encode_utf8(the_string@)) == Err::<DecodedText, DecodeError>(e),
        },
{
    let payload = the_string.as_str();
    let sender = match get_text_between_strings(payload, NAME_START, NAME_END, DecodeMode::Name) {
        None => { return Err(DecodeError::MarkerNotFound); },
        Some(hex) => match decode_hex(hex) {
            Err(e) => { return Err(e); },
            Ok(text) => text,
        },
    };
    let message = match get_text_between_strings(payload, MESSAGE_START, MESSAGE_END, DecodeMode::Message) {
        None => { return Err(DecodeError::MarkerNotFound); },
        Some(hex) => match decode_hex(hex) {
            Err(e) => { return Err(e); },
            Ok(text) => correct_length(text),
        },
    };
    Ok(DecodedMessage { sender, message })
}

} // verus!
