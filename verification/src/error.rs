//! Error kinds of the codec and of the client.

use vstd::prelude::*;

verus! {

/// Why a buffer could not be read as a frame.
#[derive(Debug, Clone, Copy, PartialEq, Eq, Structural)]
pub enum CommandError {
    /// The buffer ends before the frame does.
    IncompleteCommandError,
    /// The header is empty, its verb is unknown, or it has the wrong number of fields.
    CommandMalformed,
    /// The field that declares a length or a count is no decimal number that fits.
    InvalidLength,
    /// The payload is not followed by CR LF.
    BodyTerminatorMissing,
}

/// Why a primitive of the client failed.
#[derive(Debug, Clone, Copy, PartialEq, Eq, Structural)]
pub enum NatsError {
    /// The transport could not be opened.
    ConnectFailed,
    /// The cluster address is not of the form host:port.
    UriInvalid,
    /// A secure connection was asked for and the address names no host.
    TlsHostMissingError,
    /// A frame could not be parsed.
    CommandMalformed,
    /// A subject is empty or holds a blank or a line end.
    InvalidSubject,
    /// A reply subject is empty or holds a blank or a line end.
    InvalidInbox,
    /// A queue or a sink was closed.
    InnerBrokenChain,
    /// The address could not be read as a URL.
    UrlParseError,
    /// A command was built without one of the fields it must have.
    UninitializedField,
}

} // verus!
