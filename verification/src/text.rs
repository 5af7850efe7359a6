//! Reading bytes as text.

use vstd::prelude::*;
use vstd::utf8::*;

verus! {

/// The text that `String::from_utf8_lossy` makes of bytes: the decoded text
/// where the bytes are valid UTF-8, and otherwise a text in which each invalid
/// stretch has become U+FFFD. Which stretches count as one is left to the
/// standard library.
pub uninterp spec fn lossy_text(bytes: Seq<u8>) -> Seq<char>;

/// Trusted: `core::str::from_utf8`. It accepts exactly the valid UTF-8
/// sequences, and the text it returns is the one those bytes encode.
#[verifier::external_body]
pub(crate) fn checked_text<'a>(bytes: &'a [u8]) -> (r: Option<&'a str>)
    ensures
        r is Some <==> valid_utf8(bytes@),
        r matches Some(text) ==> text@ == decode_utf8(bytes@),
{
    match core::str::from_utf8(bytes) {
        Ok(text) => Some(text),
        Err(_) => None,
    }
}

/// Trusted: `String::from_utf8_lossy`. Its result is a function of the bytes
/// alone, named [`lossy_text`]; valid UTF-8 comes back as the text it encodes.
#[verifier::external_body]
pub(crate) fn replaced_text(bytes: &[u8]) -> (r: String)
    ensures
        r@ == lossy_text(bytes@),
        valid_utf8(bytes@) ==> r@ == decode_utf8(bytes@),
{
    String::from_utf8_lossy(bytes).into_owned()
}

} // verus!
