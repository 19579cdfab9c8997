//! One connection of an echo server: each read is answered by writing the
//! same bytes back, until the client leaves, a read fails or a read times out.

use vstd::prelude::*;

verus! {

/// How many connections the server handles at once.
pub const MAX_CONNECTIONS: usize = 1024;

/// The size of the read buffer.
pub const READ_BUFFER_SIZE: usize = 1024;

/// How long a read may wait for the client, in seconds.
pub const READ_TIMEOUT_SECS: u64 = 30;

/// The outcome of one bounded read from the client.
pub enum ReadOutcome {
    /// The read completed with this many bytes; 0 means the client closed.
    Read(usize),
    /// The read failed.
    Failed,
    /// The read did not complete in time.
    TimedOut,
}

/// Why a connection ends.
#[derive(Clone, Copy, Debug, PartialEq, Eq, Structural)]
pub enum StopReason {
    Disconnected,
    ReadError,
    ReadTimeout,
}

/// What the connection does after a read.
pub enum EchoAction {
    /// Write back the first this-many bytes of the buffer and read again.
    Echo(usize),
    /// End the connection.
    Stop(StopReason),
}

/// Decides what follows a read.
pub fn echo_step(outcome: ReadOutcome) -> (action: EchoAction)
    ensures
        match outcome {
            ReadOutcome::Read(n) => if n == 0 {
                action == EchoAction::Stop(StopReason::Disconnected)
            } else {
                action == EchoAction::Echo(n)
            },
            ReadOutcome::Failed => action == EchoAction::Stop(StopReason::ReadError),
            ReadOutcome::TimedOut => action == EchoAction::Stop(StopReason::ReadTimeout),
        },
{
    match outcome {
        ReadOutcome::Read(n) => if n == 0 {
            EchoAction::Stop(StopReason::Disconnected)
        } else {
            EchoAction::Echo(n)
        },
        ReadOutcome::Failed => EchoAction::Stop(StopReason::ReadError),
        ReadOutcome::TimedOut => EchoAction::Stop(StopReason::ReadTimeout),
    }
}

} // verus!
