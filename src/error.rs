use vstd::prelude::*;

verus! {

/// Why one line of text is not a command.
#[derive(Debug, Clone, Copy, PartialEq, Eq, Structural)]
pub enum ParseError {
    /// The line holds nothing before its terminator.
    EmptyLine,
    /// The first word is neither `PUBLISH` nor `RETRIEVE`.
    UnknownVerb,
    /// `PUBLISH` came without a payload.
    MissingPayload,
    /// `RETRIEVE` came with something after it.
    UnexpectedPayload,
}

/// The failures the server distinguishes internally.
#[derive(Debug, Clone, Copy, PartialEq, Eq, Structural)]
pub enum ServerError {
    /// A frame held valid text that is not a command.
    ParseError(ParseError),
    /// A frame's bytes are not valid UTF-8.
    EncodingError,
    /// The store has been degraded and refuses every operation.
    LockError,
    /// A request failed inside the server; the cause is not disclosed.
    Internal,
}

} // verus!
