//! Percent-encoding of the pieces of a path, as `urlencoding` does it.

use vstd::prelude::*;
use vstd::string::*;
use vstd::utf8::*;

verus! {

/// What `urlencoding::decode` gives for a text: the text with each `%` and
/// two hexadecimal digits replaced by the byte they name, and then read as
/// UTF-8; `None` where what comes out is not UTF-8. A `%` without two
/// hexadecimal digits behind it is left to the decoder.
pub uninterp spec fn percent_decoded(s: Seq<char>) -> Option<Seq<char>>;

/// Calls `urlencoding::decode`. What it gives is a function of the text
/// alone. A text that holds no `%` is handed back as it is, so that only a
/// text with a `%` can fail to decode.
#[verifier::external_body]
pub(crate) fn percent_decode(segment: &str) -> (r: Option<String>)
    ensures
        r is Some <==> percent_decoded(segment@) is Some,
        r matches Some(d) ==> percent_decoded(segment@) == Some(d@),
        r matches Some(d) ==> (!segment@.contains('%') ==> d@ == segment@),
        r is None ==> segment@.contains('%'),
{
    match urlencoding::decode(segment) {
        Ok(d) => Some(d.into_owned()),
        Err(_) => None,
    }
}

/// The bytes that stay as they are in a percent-encoded text: ASCII letters,
/// digits and `- . _ ~`.
pub open spec fn is_unreserved(b: u8) -> bool {
    ||| 0x30 <= b <= 0x39
    ||| 0x41 <= b <= 0x5a
    ||| 0x61 <= b <= 0x7a
    ||| b == 0x2d
    ||| b == 0x2e
    ||| b == 0x5f
    ||| b == 0x7e
}

/// The upper-case hexadecimal digit for a value below sixteen.
pub open spec fn hex_upper(d: int) -> char {
    if d < 10 {
        (0x30 + d) as u8 as char
    } else {
        (0x41 + d - 10) as u8 as char
    }
}

/// One byte, percent-encoded.
pub open spec fn percent_encoded_byte(b: u8) -> Seq<char> {
    if is_unreserved(b) {
        seq![b as char]
    } else {
        seq!['%', hex_upper(b as int / 16), hex_upper(b as int % 16)]
    }
}

/// A run of bytes, each percent-encoded.
pub open spec fn percent_encoded_bytes(bytes: Seq<u8>) -> Seq<char>
    decreases bytes.len(),
{
    if bytes.len() == 0 {
        Seq::empty()
    } else {
        percent_encoded_bytes(bytes.drop_last()) + percent_encoded_byte(bytes.last())
    }
}

/// A text percent-encoded: every byte of its UTF-8 form but the unreserved
/// ones becomes `%` and two upper-case hexadecimal digits.
pub open spec fn percent_encoded(s: Seq<char>) -> Seq<char> {
    percent_encoded_bytes(encode_utf8(s))
}

/// Calls `urlencoding::encode`, which percent-encodes every byte of the text
/// except ASCII letters, digits and `- . _ ~`.
#[verifier::external_body]
pub(crate) fn percent_encode(name: &str) -> (r: String)
    ensures
        r@ == percent_encoded(name@),
{
    urlencoding::encode(name).into_owned()
}

} // verus!
