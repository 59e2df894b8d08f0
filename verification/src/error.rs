use vstd::prelude::*;

verus! {

/// Failure taxonomy of this layer.
#[derive(Debug)]
pub enum ErrorKind {
    /// A generic fault: a transport error or a protocol violation
    /// (for instance a message stream that ends before completion).
    Message,
    /// The session must be re-established: the caller should drop this
    /// connection and acquire a fresh one from the pool.
    Reconnect,
    /// The command ran to completion and exited with a non-zero status;
    /// `output` holds the bytes captured from the error stream.
    ExitStatus { status: u32, output: Vec<u8> },
}

/// An error surfaced to callers of the pool, of `exec` or of `Proc::run`.
#[derive(Debug)]
pub struct Error {
    pub message: String,
    pub kind: ErrorKind,
}

impl Error {
    /// A generic error carrying only a message.
    pub fn new(message: &str) -> (r: Error)
        ensures
            r.message@ == message@,
            r.kind is Message,
    {
        Error { message: message.to_owned(), kind: ErrorKind::Message }
    }

    /// The distinguished signal that a fresh session is required.
    pub fn reconnect() -> (r: Error)
        ensures
            r.kind is Reconnect,
    {
        Error { message: "session needs to be re-established".to_owned(), kind: ErrorKind::Reconnect }
    }
}

/// How a channel-open request failed, as classified by the transport.
pub enum OpenChannelError {
    /// The session is alive but the remote side declined this channel.
    Refused,
    /// The session itself failed; carries the underlying error.
    Transport(Error),
}

} // verus!
