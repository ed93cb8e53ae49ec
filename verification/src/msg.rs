//! Core data model: per-element commands, timestamped messages, and the
//! library's error taxonomy.

use vstd::prelude::*;

verus! {

/// A command addressed to one lighting element. Every variant but `Null`
/// carries an 8-bit intensity.
#[derive(Clone, Copy, Debug, PartialEq, Eq, Structural)]
pub enum Command {
    Null,
    Flat(u8),
    FlatStack(u8),
    PulseLinear(u8),
    PulseQuadratic(u8),
}

/// One timestamped command for one element. Timestamps live on a wrapping
/// 32-bit clock; comparisons between them are only meaningful through
/// signed wrapped differences.
#[derive(Clone, Copy, Debug, PartialEq, Eq, Structural)]
pub struct LedMsg {
    pub element: u8,
    pub cmd: Command,
    pub cur_time: u32,
}

/// Decoding failure, local to one `deserialize` call.
#[derive(Clone, Copy, Debug, PartialEq, Eq, Structural)]
pub enum CodecError {
    /// A record or the header was cut short.
    Truncated,
    /// A record began with a command tag outside the known set.
    UnknownTag,
    /// The leading mode byte was neither the plain nor the baseline form.
    BadHeader,
}

/// Error taxonomy of the sender side.
#[derive(Debug, PartialEq, Eq)]
pub enum Error {
    /// Malformed wire data.
    Codec(CodecError),
    /// A notification timed out; tolerated, the loop continues.
    TransportTimeout,
    /// A fatal transport failure; the loop terminates.
    TransportFault(String),
    /// The other end of the command queue is gone.
    ChannelDisconnected,
    /// A request that the current state refuses, e.g. a second terminate.
    BadInput(String),
}

} // verus!
