//! A connection-pooling and command-execution layer above an authenticated
//! remote-shell transport: one session per device, one or more logical
//! channels per session.
//!
//! The pool keeps at most one live connection per device name, creating a
//! connection on a miss and evicting it when its session turns out to be
//! dead. Commands run either buffered (`exec`: collect all output, then
//! apply the exit-status policy) or streamed (`Proc::run`: push stdout
//! chunks out as they arrive, interruptible mid-flight). The transport
//! itself performs the network I/O and hands the message events in; every
//! decision taken on those events is made, and verified, here.

pub mod channel;
pub mod connection;
pub mod device;
pub mod error;
pub mod exec;
pub mod pool;
pub mod proc;
