//! Text out of the bytes that other programs print.
use crate::channels::lower;
use crate::scan::{drop_trailing, trim_trailing};
use crate::text::{chars_of, to_text, CharClass};
use vstd::prelude::*;
use vstd::utf8::{decode_utf8, is_ascii_chars, valid_utf8};

verus! {

/// Bytes read as text, with a replacement character for what is not UTF-8.
pub uninterp spec fn lossy(bytes: Seq<u8>) -> Seq<char>;

/// `String::from_utf8_lossy`. The text depends on the bytes alone, and bytes that are
/// UTF-8 are the text that they encode.
#[verifier::external_body]
pub(crate) fn decode_lossy(bytes: &[u8]) -> (text: String)
    ensures
        text@ == lossy(bytes@),
        valid_utf8(bytes@) ==> text@ == decode_utf8(bytes@),
{
    String::from_utf8_lossy(bytes).into_owned()
}

/// A text in lower case.
pub uninterp spec fn lowercase(text: Seq<char>) -> Seq<char>;

/// `str::to_lowercase`. The result depends on the text alone, and of an ASCII text it
/// is that text with each letter in lower case.
#[verifier::external_body]
pub(crate) fn to_lowercase(text: &str) -> (low: String)
    ensures
        low@ == lowercase(text@),
        is_ascii_chars(text@) ==> low@ == text@.map_values(|c: char| lower(c)),
{
    text.to_lowercase()
}

/// Bytes as ASCII text in lower case.
pub open spec fn ascii_lowercase(bytes: Seq<u8>) -> Seq<char> {
    decode_utf8(bytes).map_values(|c: char| lower(c))
}

/// Whether bytes are ASCII text.
pub open spec fn ascii(bytes: Seq<u8>) -> bool {
    valid_utf8(bytes) && is_ascii_chars(decode_utf8(bytes))
}

/// A line that was printed, as text without white space at its end.
pub open spec fn line_text(bytes: Seq<u8>) -> Seq<char> {
    drop_trailing(lossy(bytes), CharClass::White)
}

/// A line of text without white space at its end.
pub fn trim_line(text: &str) -> (line: String)
    ensures
        line@ == drop_trailing(text@, CharClass::White),
{
    to_text(&trim_trailing(&chars_of(text), CharClass::White))
}

/// A line that was printed, as text without white space at its end. Bytes that are not
/// UTF-8 do not lose the line: a shell reports its own errors in the code page of the
/// console.
pub fn decode_line(bytes: &[u8]) -> (text: String)
    ensures
        text@ == line_text(bytes@),
        valid_utf8(bytes@) ==> text@ == drop_trailing(decode_utf8(bytes@), CharClass::White),
{
    trim_line(decode_lossy(bytes).as_str())
}

} // verus!
