//! Protocol messages exchanged over a session, the error taxonomy, and
//! the exit-status mapping.

use vstd::prelude::*;

verus! {

/// The operating system the daemon runs on, selecting which of the three
/// mutually exclusive command fields of a spawn message is consulted.
#[derive(Clone, Copy, Debug, PartialEq, Eq, Structural)]
pub enum HostOs {
    Windows,
    Linux,
    Macos,
}

/// The two error classes surfaced to the caller: protocol misuse and
/// internal daemon failure. Both are terminal for the session.
#[derive(Clone, Copy, Debug, PartialEq, Eq, Structural)]
pub enum ErrorClass {
    InvalidArgument,
    Internal,
}

/// Why a session ended in an error. The transport adapter turns the
/// reason into its own status representation; the class of each reason
/// is fixed by `error_class`.
#[derive(Clone, Copy, Debug, PartialEq, Eq, Structural)]
pub enum ErrorReason {
    /// The inbound stream ended before a spawn-triggering message.
    MissingInitialPackets,
    /// The inbound stream itself yielded an error before the spawn.
    InitialPacketErr,
    /// An upload message carried a binary name but no chunk.
    MissingBinaryChunk,
    /// The spawn message lacked the command field for this host OS.
    MissingCommand,
    /// An argument set both a literal and a binary reference, or neither.
    ArgNotExclusive,
    /// A message after the spawn carried a command field or arguments.
    StdinCarriesCommand,
    /// A message after the spawn carried neither command nor input bytes.
    MissingStdin,
    /// The durable upload store could not be written.
    AppendFailed,
    /// The resolved invocation could not be spawned.
    SpawnFailed,
    /// Reading the process's output channel failed.
    OutputReadFailed,
    /// Reading the process's error channel failed.
    ErrorReadFailed,
    /// The process's exit status could not be retrieved.
    ExitStatusUnavailable,
}

/// The class a given error reason belongs to.
pub open spec fn spec_error_class(r: ErrorReason) -> ErrorClass {
    match r {
        ErrorReason::MissingInitialPackets => ErrorClass::InvalidArgument,
        ErrorReason::InitialPacketErr => ErrorClass::InvalidArgument,
        ErrorReason::MissingBinaryChunk => ErrorClass::InvalidArgument,
        ErrorReason::MissingCommand => ErrorClass::InvalidArgument,
        ErrorReason::ArgNotExclusive => ErrorClass::InvalidArgument,
        ErrorReason::StdinCarriesCommand => ErrorClass::InvalidArgument,
        ErrorReason::MissingStdin => ErrorClass::InvalidArgument,
        ErrorReason::AppendFailed => ErrorClass::Internal,
        ErrorReason::SpawnFailed => ErrorClass::Internal,
        ErrorReason::OutputReadFailed => ErrorClass::Internal,
        ErrorReason::ErrorReadFailed => ErrorClass::Internal,
        ErrorReason::ExitStatusUnavailable => ErrorClass::Internal,
    }
}

/// Executable form of `spec_error_class`.
pub fn error_class(r: ErrorReason) -> (c: ErrorClass)
    ensures
        c == spec_error_class(r),
{
    match r {
        ErrorReason::MissingInitialPackets => ErrorClass::InvalidArgument,
        ErrorReason::InitialPacketErr => ErrorClass::InvalidArgument,
        ErrorReason::MissingBinaryChunk => ErrorClass::InvalidArgument,
        ErrorReason::MissingCommand => ErrorClass::InvalidArgument,
        ErrorReason::ArgNotExclusive => ErrorClass::InvalidArgument,
        ErrorReason::StdinCarriesCommand => ErrorClass::InvalidArgument,
        ErrorReason::MissingStdin => ErrorClass::InvalidArgument,
        ErrorReason::AppendFailed => ErrorClass::Internal,
        ErrorReason::SpawnFailed => ErrorClass::Internal,
        ErrorReason::OutputReadFailed => ErrorClass::Internal,
        ErrorReason::ErrorReadFailed => ErrorClass::Internal,
        ErrorReason::ExitStatusUnavailable => ErrorClass::Internal,
    }
}

/// One element of a spawn message's argument list: either a literal
/// value or a reference to a previously uploaded binary, never both.
#[derive(Clone, Debug, PartialEq, Eq)]
pub struct Arg {
    pub regular: Option<Vec<u8>>,
    pub binary: Option<Vec<u8>>,
}

/// One inbound protocol message, client to daemon. All fields are
/// optional at the transport; which combination is valid depends on the
/// session phase.
#[derive(Clone, Debug, PartialEq, Eq, Default)]
pub struct InboundMessage {
    pub binary_name: Option<Vec<u8>>,
    pub binary_chunk: Option<Vec<u8>>,
    pub command_windows: Option<Vec<u8>>,
    pub command_linux: Option<Vec<u8>>,
    pub command_macos: Option<Vec<u8>>,
    pub args: Vec<Arg>,
    pub stdin: Option<Vec<u8>>,
}

/// One outbound protocol message, daemon to client. Exactly one
/// `ExitCode` or `Error` terminates a session's outbound stream.
#[derive(Clone, Debug, PartialEq, Eq)]
pub enum OutboundMessage {
    StdoutChunk(Vec<u8>),
    StderrChunk(Vec<u8>),
    ExitCode(u8),
    Error(ErrorReason),
}

/// Whether a message is a terminal one: after it, nothing more is sent.
pub open spec fn is_terminal(m: OutboundMessage) -> bool {
    match m {
        OutboundMessage::ExitCode(_) => true,
        OutboundMessage::Error(_) => true,
        _ => false,
    }
}

/// How a raw process exit status maps onto the protocol's exit code:
/// statuses outside 0..=255, or unavailable ones (killed by a signal),
/// are reported as 255.
pub open spec fn spec_exit_code(status: Option<i32>) -> u8 {
    match status {
        None => 255u8,
        Some(c) => if 0 <= c <= 255 {
            c as u8
        } else {
            255u8
        },
    }
}

/// Maps the raw exit status handed back by the process waiter onto the
/// protocol exit code.
pub fn map_exit_status(status: Option<i32>) -> (r: u8)
    ensures
        r == spec_exit_code(status),
{
    match status {
        None => 255,
        Some(c) => if 0 <= c && c <= 255 {
            c as u8
        } else {
            255
        },
    }
}

} // verus!
