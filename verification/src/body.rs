//! Captured bodies: the bytes that are passed on, and the text that is
//! logged for them.

use crate::text::optional_text;
use vstd::prelude::*;
use vstd::utf8::decode_utf8;
use vstd::utf8::valid_utf8;

verus! {

/// The description that `String::from_utf8` gives of its failure on bytes
/// that are not UTF-8: the error's display text, which says where the bytes
/// stop being text and holds none of them.
pub uninterp spec fn utf8_failure(bytes: Seq<u8>) -> Seq<char>;

/// Decodes bytes by `String::from_utf8`. Valid UTF-8 gives the text that the
/// bytes encode; anything else gives the error, handed on as its display
/// text.
#[verifier::external_body]
fn decode(bytes: Vec<u8>) -> (decoded: Result<String, String>)
    ensures
        match decoded {
            Ok(text) => valid_utf8(bytes@) && text@ == decode_utf8(bytes@),
            Err(failure) => !valid_utf8(bytes@) && failure@ == utf8_failure(bytes@),
        },
{
    match String::from_utf8(bytes) {
        Ok(text) => Ok(text),
        Err(error) => Err(format!("{}", error)),
    }
}

/// The text logged for a body: the text that the bytes encode, or, where
/// they are not UTF-8, the description of that failure.
pub open spec fn body_text(bytes: Seq<u8>) -> Seq<char> {
    if valid_utf8(bytes) {
        decode_utf8(bytes)
    } else {
        utf8_failure(bytes)
    }
}

/// The text logged for the outcome of a decoding: the decoded text, or the
/// description of the failure in its place.
pub fn text_of(decoded: Result<String, String>) -> (text: String)
    ensures
        match decoded {
            Ok(decoded_text) => text@ == decoded_text@,
            Err(failure) => text@ == failure@,
        },
{
    match decoded {
        Ok(decoded_text) => decoded_text,
        Err(failure) => failure,
    }
}

/// The text logged for a body. The bytes themselves are left as they are.
pub fn logged_body(bytes: &Vec<u8>) -> (text: String)
    ensures
        text@ == body_text(bytes@),
{
    text_of(decode(bytes.clone()))
}

/// A body after its stream was read to the end.
#[derive(Debug, PartialEq, Eq)]
pub struct CapturedBody {
    /// The bytes that were read, to be passed on unchanged; empty where the
    /// read failed.
    pub bytes: Vec<u8>,
    /// The description of the failure, where the read failed.
    pub failure: Option<String>,
}

/// The bytes captured from the outcome of a read.
pub open spec fn captured_bytes(read: Result<Vec<u8>, String>) -> Seq<u8> {
    match read {
        Ok(bytes) => bytes@,
        Err(_) => Seq::empty(),
    }
}

/// The failure recorded for the outcome of a read.
pub open spec fn read_failure(read: Result<Vec<u8>, String>) -> Option<Seq<char>> {
    match read {
        Ok(_) => None,
        Err(failure) => Some(failure@),
    }
}

/// Captures a body from the outcome of reading its stream. A failed read
/// is recorded and stands for an empty body, so that handling goes on.
pub fn capture(read: Result<Vec<u8>, String>) -> (captured: CapturedBody)
    ensures
        captured.bytes@ == captured_bytes(read),
        optional_text(captured.failure) == read_failure(read),
{
    match read {
        Ok(bytes) => CapturedBody { bytes, failure: None },
        Err(failure) => CapturedBody { bytes: Vec::new(), failure: Some(failure) },
    }
}

} // verus!
