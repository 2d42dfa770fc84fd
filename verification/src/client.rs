//! What the client sends and how it reads the server's answer.
use crate::data::Data;
use crate::wire::string_from_utf8;
use vstd::prelude::*;
use vstd::string::StringExecFns;
use vstd::utf8::{decode_utf8, valid_utf8};

verus! {

/// The first number of the client's message.
pub const MESSAGE_FIELD1: u32 = 42;

/// The second number of the client's message.
pub const MESSAGE_FIELD2: u16 = 1337;

/// The text of the client's message.
pub const MESSAGE_TEXT: &'static str = "Hello from Rally!";

/// The message the client sends: 42, 1337 and "Hello from Rally!".
pub fn client_message() -> (d: Data)
    ensures
        d.field1 == 42,
        d.field2 == 1337,
        d.field3@ == "Hello from Rally!"@,
{
    Data {
        field1: MESSAGE_FIELD1,
        field2: MESSAGE_FIELD2,
        field3: String::from_str(MESSAGE_TEXT),
    }
}

/// Why the server's answer could not be read.
#[derive(Debug, Clone, Copy, PartialEq, Eq, Structural)]
pub enum ResponseError {
    /// The answer is not valid UTF-8.
    InvalidUtf8,
}

/// Reads the server's answer as text.
pub fn decode_response(bytes: Vec<u8>) -> (r: Result<String, ResponseError>)
    ensures
        r is Ok <==> valid_utf8(bytes@),
        r matches Ok(s) ==> s@ == decode_utf8(bytes@),
        r matches Err(e) ==> e == ResponseError::InvalidUtf8,
{
    match string_from_utf8(bytes) {
        Some(s) => Ok(s),
        None => Err(ResponseError::InvalidUtf8),
    }
}

} // verus!
