//! The library's error taxonomy.  I/O failures reach the library only as
//! their message text, since the library itself never touches a socket.

use vstd::prelude::*;

verus! {

#[derive(Debug, Clone, PartialEq)]
pub enum Error {
    /// The remote player reported a non-success outcome; the payload is the
    /// remote's own error text, unreinterpreted.
    MpvError(String),
    ConnectError(String),
    ReadError(String),
    WriteError(String),
    /// A line could not be parsed as JSON.
    JsonError(String),
    /// Well-formed JSON of the wrong shape.
    UnexpectedValue,
    /// A successful reply carried no data where the caller required some.
    MissingValue,
}

} // verus!
