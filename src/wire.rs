//! Checks shared by both services on what one read of a response returned.
use vstd::prelude::*;
use vstd::utf8::*;

use crate::error::Error;

verus! {

/// Capacity of the buffer that one response is read into. A read that fills
/// it is taken to be truncated.
pub const BUF_LEN: usize = 128;

/// The text of a response, where the read did not fill the buffer and the
/// bytes are valid UTF-8.
pub open spec fn response_text(raw: Seq<u8>) -> Option<Seq<char>> {
    if raw.len() < BUF_LEN && valid_utf8(raw) {
        Some(decode_utf8(raw))
    } else {
        None
    }
}

/// Relies on `std::str::from_utf8`: it succeeds exactly on valid UTF-8 and
/// then holds the characters that the bytes encode.
#[verifier::external_body]
fn utf8_text(b: &[u8]) -> (r: Option<&str>)
    ensures
        r is Some <==> valid_utf8(b@),
        r matches Some(s) ==> s@ == decode_utf8(b@),
{
    std::str::from_utf8(b).ok()
}

/// Checks the bytes that one read returned and decodes them as text.
pub fn read_response(raw: &[u8]) -> (r: Result<String, Error>)
    ensures
        r is Ok <==> response_text(raw@) is Some,
        r matches Ok(s) ==> s@ == response_text(raw@)->0,
        raw@.len() >= BUF_LEN ==> r matches Err(Error::Framing(_)),
        raw@.len() < BUF_LEN && !valid_utf8(raw@) ==> r matches Err(Error::Decode(_)),
{
    if raw.len() >= BUF_LEN {
        return Err(Error::Framing("Buffer too small".to_owned()));
    }
    match utf8_text(raw) {
        Some(s) => Ok(s.to_owned()),
        None => Err(Error::Decode("Response is not valid UTF-8".to_owned())),
    }
}

} // verus!
