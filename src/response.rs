//! The envelope in which every API answer travels, and its result codes.
use vstd::prelude::*;

verus! {

/// Result code of an API answer.
#[derive(Debug, Clone, Copy, PartialEq, Eq, Structural)]
pub enum Code {
    /// The request succeeded.
    Success,
    /// The answer could not be serialised.
    RespSerializeFailed,
    /// The request failed inside the server.
    InternalError,
}

impl Code {
    /// The number that stands for this code on the wire.
    pub fn value(&self) -> (r: u16)
        ensures
            r == match *self {
                Code::Success => 0u16,
                Code::RespSerializeFailed => 100u16,
                Code::InternalError => 500u16,
            },
    {
        match self {
            Code::Success => 0,
            Code::RespSerializeFailed => 100,
            Code::InternalError => 500,
        }
    }
}

/// An API answer: a code, and optionally a payload and a message.
#[derive(Debug)]
pub struct Resp<T, W = String> {
    pub code: Code,
    pub data: Option<T>,
    pub message: Option<W>,
}

/// A success without payload.
pub fn success<T>() -> (r: Resp<T>)
    ensures
        r.code == Code::Success,
        r.data is None,
        r.message is None,
{
    Resp { code: Code::Success, data: None, message: None }
}

/// A success carrying `data`.
pub fn success_data<T>(data: T) -> (r: Resp<T>)
    ensures
        r.code == Code::Success,
        r.data == Some(data),
        r.message is None,
{
    Resp { code: Code::Success, data: Some(data), message: None }
}

/// A failure with the given code and message.
pub fn fail<T>(code: Code, message: String) -> (r: Resp<T>)
    ensures
        r.code == code,
        r.data is None,
        r.message == Some(message),
{
    Resp { code, data: None, message: Some(message) }
}

/// The answer for an error inside the server, carrying its description.
pub fn internal_error(message: String) -> (r: Resp<()>)
    ensures
        r.code == Code::InternalError,
        r.data is None,
        r.message == Some(message),
{
    Resp { code: Code::InternalError, data: None, message: Some(message) }
}

} // verus!
