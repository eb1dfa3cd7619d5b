//! The encoding of text content: by its byte-order mark, by whether it is
//! UTF-8, or by a guess.

use vstd::prelude::*;
use vstd::string::*;
use vstd::utf8::*;
use crate::text::utf8_text;

verus! {

/// The encodings that a byte-order mark can announce.
#[derive(Clone, Copy, Debug, PartialEq, Eq, Structural)]
pub enum Bom {
    Utf8,
    Utf16Le,
    Utf16Be,
}

/// The byte-order mark that the content begins with, if it begins with one.
pub open spec fn bom_of(content: Seq<u8>) -> Option<Bom> {
    if content.len() >= 3 && content[0] == 0xEF && content[1] == 0xBB && content[2] == 0xBF {
        Some(Bom::Utf8)
    } else if content.len() >= 2 && content[0] == 0xFF && content[1] == 0xFE {
        Some(Bom::Utf16Le)
    } else if content.len() >= 2 && content[0] == 0xFE && content[1] == 0xFF {
        Some(Bom::Utf16Be)
    } else {
        None
    }
}

/// The name of the encoding that a byte-order mark announces.
pub open spec fn bom_label(bom: Bom) -> Seq<char> {
    match bom {
        Bom::Utf8 => "UTF-8"@,
        Bom::Utf16Le => "UTF-16LE"@,
        Bom::Utf16Be => "UTF-16BE"@,
    }
}

/// Calls `Encoding::name` of `encoding_rs` on its `UTF_8`, `UTF_16LE` or
/// `UTF_16BE`, whose names are `UTF-8`, `UTF-16LE` and `UTF-16BE`.
#[verifier::external_body]
fn bom_encoding_name(bom: Bom) -> (r: &'static str)
    ensures
        r@ == bom_label(bom),
{
    let encoding: &'static encoding_rs::Encoding = match bom {
        Bom::Utf8 => encoding_rs::UTF_8,
        Bom::Utf16Le => encoding_rs::UTF_16LE,
        Bom::Utf16Be => encoding_rs::UTF_16BE,
    };
    encoding.name()
}

/// The name of the encoding that `chardetng` guesses for the content, when
/// it is fed all of it at once, is given no top-level domain and may answer
/// UTF-8.
pub uninterp spec fn detected_charset(content: Seq<u8>) -> Seq<char>;

/// Feeds all of the content to a new `chardetng::EncodingDetector` and asks
/// for its guess. The guess is a function of the content alone.
#[verifier::external_body]
fn guess_charset(content: &[u8]) -> (r: &'static str)
    ensures
        r@ == detected_charset(content@),
{
    let mut detector = chardetng::EncodingDetector::new();
    detector.feed(content, true);
    detector.guess(None, true).name()
}

/// The name of the encoding of text content: what its byte-order mark
/// announces; without one, UTF-8 where the content is well-formed UTF-8, and
/// the detector's guess where it is not.
pub open spec fn charset_label(content: Seq<u8>) -> Seq<char> {
    match bom_of(content) {
        Some(bom) => bom_label(bom),
        None => if valid_utf8(content) {
            "UTF-8"@
        } else {
            detected_charset(content)
        },
    }
}

/// The name of the encoding of text content.
pub fn detect_encoding(content: &[u8]) -> (r: String)
    ensures
        r@ == charset_label(content@),
{
    let n = content.len();
    if n >= 3 && content[0] == 0xEF && content[1] == 0xBB && content[2] == 0xBF {
        return bom_encoding_name(Bom::Utf8).to_string();
    }
    if n >= 2 && content[0] == 0xFF && content[1] == 0xFE {
        return bom_encoding_name(Bom::Utf16Le).to_string();
    }
    if n >= 2 && content[0] == 0xFE && content[1] == 0xFF {
        return bom_encoding_name(Bom::Utf16Be).to_string();
    }
    if utf8_text(content).is_some() {
        return bom_encoding_name(Bom::Utf8).to_string();
    }
    guess_charset(content).to_string()
}

/// Content that begins with the bytes FF FE is labelled UTF-16LE.
pub proof fn lemma_utf16le_mark_is_labelled(content: Seq<u8>)
    requires
        content.len() >= 2,
        content[0] == 0xFF,
        content[1] == 0xFE,
    ensures
        charset_label(content) == "UTF-16LE"@,
{
}

/// Content that is well-formed UTF-8 is labelled UTF-8.
pub proof fn lemma_utf8_text_is_labelled(content: Seq<u8>)
    requires
        valid_utf8(content),
    ensures
        charset_label(content) == "UTF-8"@,
{
    if content.len() > 0 {
        assert(valid_first_scalar(content));
        assert(content[0] <= 0xf7);
    }
}

} // verus!
