use vstd::prelude::*;
use vstd::utf8::{decode_utf8, valid_utf8};
use crate::error::Error;

verus! {

/// Relies on `String::from_utf8`: it succeeds exactly on valid UTF-8, and the
/// string then holds the characters that the bytes encode.
#[verifier::external_body]
fn utf8_to_string(bytes: Vec<u8>) -> (r: Option<String>)
    ensures
        r is Some <==> valid_utf8(bytes@),
        r matches Some(s) ==> s@ == decode_utf8(bytes@),
{
    String::from_utf8(bytes).ok()
}

/// Turns the whole body of a response into text: a decode error unless the
/// bytes are valid UTF-8.
pub fn decode_body(bytes: Vec<u8>) -> (r: Result<String, Error>)
    ensures
        valid_utf8(bytes@) ==> (r matches Ok(s) && s@ == decode_utf8(bytes@)),
        !valid_utf8(bytes@) ==> r is Err && r->Err_0 is Decode,
{
    match utf8_to_string(bytes) {
        Some(s) => Ok(s),
        None => Err(Error::Decode),
    }
}

} // verus!
