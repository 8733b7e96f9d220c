//! Decoding raw header bytes into owned strings, and the byte classes the
//! parser filters custom attribute payloads with.
//!
//! Decoding is lossy: byte sequences that are not valid UTF-8 come back with
//! replacement characters instead of failing.  The exact character sequence
//! such a decode produces is a function of the input bytes alone; it is
//! named by [`lossy_of`] and pinned down for ASCII input, the only input the
//! parser's own logic ever examines further.

use vstd::prelude::*;

verus! {

/// The character sequence that lossy UTF-8 decoding produces from `bytes`.
pub uninterp spec fn lossy_of(bytes: Seq<u8>) -> Seq<char>;

/// True when every byte is ASCII (below `0x80`).
pub open spec fn is_ascii_bytes(bytes: Seq<u8>) -> bool {
    forall|i: int| 0 <= i < bytes.len() ==> bytes[i] < 0x80
}

/// Each ASCII byte read as the character it encodes.
pub open spec fn ascii_chars_of(bytes: Seq<u8>) -> Seq<char> {
    bytes.map_values(|b: u8| b as char)
}

/// True for a byte that is printable ASCII (`!` through `~`).
pub open spec fn spec_ascii_graphic(b: u8) -> bool {
    0x21 <= b <= 0x7e
}

/// True for an ASCII whitespace byte: space, tab, line feed, form feed or
/// carriage return.
pub open spec fn spec_ascii_whitespace(b: u8) -> bool {
    b == 0x20 || b == 0x09 || b == 0x0a || b == 0x0c || b == 0x0d
}

/// True when every byte of a payload is printable ASCII or ASCII
/// whitespace.  Exactly these payloads decode to strings whose every
/// character is printable ASCII or ASCII whitespace, so this is the byte
/// form of the parser's retention test for custom attributes.
pub open spec fn all_printable_bytes(bytes: Seq<u8>) -> bool {
    forall|i: int|
        0 <= i < bytes.len() ==> (spec_ascii_graphic(bytes[i]) || spec_ascii_whitespace(
            bytes[i],
        ))
}

/// Relies on `String::from_utf8_lossy`: the decode is a function of the
/// bytes alone; valid UTF-8 (so in particular ASCII) decodes to the
/// characters it encodes, and invalid sequences become replacement
/// characters, so the result is empty exactly when the input is.
#[verifier::external_body]
pub fn decode_lossy(bytes: &[u8]) -> (r: String)
    ensures
        r@ == lossy_of(bytes@),
        is_ascii_bytes(bytes@) ==> r@ == ascii_chars_of(bytes@),
        (r@.len() == 0) == (bytes@.len() == 0),
{
    String::from_utf8_lossy(bytes).into_owned()
}

/// Whether every byte of the slice is printable ASCII or ASCII whitespace.
pub fn printable_ascii(bytes: &[u8]) -> (r: bool)
    ensures
        r == all_printable_bytes(bytes@),
{
    let mut i: usize = 0;
    while i < bytes.len()
        invariant
            i <= bytes@.len(),
            forall|j: int|
                0 <= j < i ==> (spec_ascii_graphic(bytes@[j]) || spec_ascii_whitespace(
                    bytes@[j],
                )),
        decreases bytes@.len() - i,
    {
        let b = bytes[i];
        let graphic = 0x21 <= b && b <= 0x7e;
        let white = b == 0x20 || b == 0x09 || b == 0x0a || b == 0x0c || b == 0x0d;
        if !graphic && !white {
            return false;
        }
        i = i + 1;
    }
    true
}

} // verus!
