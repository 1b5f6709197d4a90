//! The byte codecs that ingestion relies on: base64 and UTF-8.
use vstd::prelude::*;
use vstd::utf8::*;
use base64::Engine;

verus! {

/// The bytes that base64's standard alphabet, with padding, decodes a text
/// into, or `None` where the text is no such encoding.
pub uninterp spec fn base64_decoded(s: Seq<char>) -> Option<Seq<u8>>;

/// Relies on base64's `general_purpose::STANDARD.decode`: the bytes a text
/// encodes, or an error; the outcome depends on the text alone.
#[verifier::external_body]
pub(crate) fn base64_decode(text: &str) -> (r: Option<Vec<u8>>)
    ensures
        match r {
            Some(bytes) => base64_decoded(text@) == Some(bytes@),
            None => base64_decoded(text@) is None,
        },
{
    base64::engine::general_purpose::STANDARD.decode(text).ok()
}

/// Relies on String::from_utf8: it accepts exactly the well-formed UTF-8
/// byte sequences, and the string holds the characters they encode.
#[verifier::external_body]
pub(crate) fn utf8_string(bytes: Vec<u8>) -> (r: Option<String>)
    ensures
        match r {
            Some(s) => valid_utf8(bytes@) && s@ == decode_utf8(bytes@),
            None => !valid_utf8(bytes@),
        },
{
    String::from_utf8(bytes).ok()
}

} // verus!
