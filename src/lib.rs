//! Wire codec for a serial control panel: typed host commands and device
//! reports, their byte layout, and incremental readers that rebuild whole
//! messages from a stream that arrives in arbitrary chunks.
use vstd::prelude::*;

pub use arrayvec::{ArrayString, ArrayVec};

pub mod bounded;
pub mod command;
pub mod report;
pub mod reader;
pub mod laws;

pub use command::{Command, IntervalMs, PulseMode};
pub use reader::{CommandReader, ReportReader};
pub use report::{DebugMessage, Report};

verus! {

/// Largest number of bytes a reader keeps between calls: the larger of
/// the two directions' maximum message lengths.
pub const MAX_SERIAL_MESSAGE_LEN: usize = 256;

/// Largest encoded command, in bytes.
pub const MAX_COMMAND_LEN: usize = 8;

/// Largest encoded report, in bytes.
pub const MAX_REPORT_LEN: usize = 256;

/// Largest debug text, in bytes: a report's length minus the tag and length byte.
pub const MAX_DEBUG_MSG_LEN: usize = MAX_REPORT_LEN - 2;

/// What can go wrong while reading a stream of messages.
#[derive(Debug, Clone, Copy, PartialEq, Eq, Structural)]
pub enum Error {
    /// The bytes handed in do not fit in the reader's buffer.
    BufferFull,
    /// The buffer starts with bytes that are no valid message.
    MalformedMessage,
    /// More commands were decoded in one call than the caller accepts.
    CommandQueueFull,
    /// More reports were decoded in one call than the caller accepts.
    ReportQueueFull,
}

/// What decoding the front of a byte window finds.
pub enum Decoded<V> {
    /// The window is a proper prefix of a message: more bytes are needed.
    Incomplete,
    /// A whole message, and the number of bytes it takes.
    Message(V, nat),
    /// The window starts with bytes that no message begins with.
    Invalid,
}

} // verus!
