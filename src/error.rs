//! The error kind carried through the library: a message for the user and
//! an optional cause.

use vstd::prelude::*;

verus! {

/// An error: a message for the user and a cause to be logged.
#[derive(Debug, PartialEq, Eq, Clone)]
pub struct Error {
    pub message: String,
    pub cause: Option<String>,
}

impl Error {
    /// An error with this message and no cause.
    pub fn from_str<T>(message: &str) -> (r: Result<T, Error>)
        ensures
            r matches Err(e) && e.message@ == message@ && e.cause is None,
    {
        Err(Error { message: message.to_owned(), cause: None })
    }
}

/// Wraps a failure described by `cause` into an `Error` with `message`.
pub fn wrap<T>(err: Result<T, String>, message: &str) -> (r: Result<T, Error>)
    ensures
        err is Ok <==> r is Ok,
        r matches Ok(v) ==> err == Ok::<T, String>(v),
        r matches Err(e) ==> e.message@ == message@ && (err matches Err(c) && e.cause == Some(c)),
{
    match err {
        Ok(value) => Ok(value),
        Err(cause) => Err(Error { message: message.to_owned(), cause: Some(cause) }),
    }
}

} // verus!
