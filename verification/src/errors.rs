//! Error taxonomy of the game-management core.
//!
//! Errors fall into the classes the service distinguishes at its single-message
//! boundary: transport failures talking to the coordination store or the bus,
//! codec failures while decoding an envelope, protocol failures (a command tag
//! that is absent), setup failures at startup, and free-form diagnostics.

use vstd::prelude::*;

verus! {

/// A failure while decoding an envelope from its byte payload.
#[derive(Debug, Clone, Copy, PartialEq, Eq, Structural)]
pub enum DecodeError {
    /// The payload ended in the middle of a field.
    Truncated,
    /// A variable-length integer ran past its maximum width or value.
    InvalidVarint,
    /// A field tag carried a field number of zero or an unsupported wire type.
    InvalidTag,
    /// The game-name field was not valid UTF-8.
    InvalidUtf8,
}

/// The errors a registry or dispatch operation can surface.
///
/// Setup and transport failures during startup are fatal to the service;
/// every other class is caught at the single-message boundary of the bus loop.
#[derive(Debug, Clone, PartialEq, Eq)]
pub enum ServerError {
    /// The coordination store or the bus is unreachable, or a connection broke.
    Transport(String),
    /// A byte payload could not be decoded into an envelope.
    Codec(DecodeError),
    /// A bus message was not a bulk byte payload.
    RespParse(String),
    /// The envelope carried no command tag.
    MissingCommandType,
    /// The path given for the script folder was not a directory.
    NotADirectory,
    /// A free-form diagnostic for conditions not otherwise classified.
    Custom(String),
}

impl ServerError {
    /// A short, stable description of the error class.
    pub fn describe(&self) -> (r: String)
        ensures
            r@ == match *self {
                ServerError::Transport(_) => "transport error"@,
                ServerError::Codec(_) => "envelope decode error"@,
                ServerError::RespParse(_) => "bus message was not a bulk payload"@,
                ServerError::MissingCommandType => "missing message request_type"@,
                ServerError::NotADirectory => "script folder path was not a directory"@,
                ServerError::Custom(_) => "error"@,
            },
    {
        let d = match self {
            ServerError::Transport(_) => "transport error",
            ServerError::Codec(_) => "envelope decode error",
            ServerError::RespParse(_) => "bus message was not a bulk payload",
            ServerError::MissingCommandType => "missing message request_type",
            ServerError::NotADirectory => "script folder path was not a directory",
            ServerError::Custom(_) => "error",
        };
        proof {
            reveal_strlit("transport error");
            reveal_strlit("envelope decode error");
            reveal_strlit("bus message was not a bulk payload");
            reveal_strlit("missing message request_type");
            reveal_strlit("script folder path was not a directory");
            reveal_strlit("error");
        }
        String::from_str(d)
    }
}

} // verus!
