//! Transmitting half of a synchronized lighting-control protocol.
//!
//! Per-element commands carrying a shared wrapping 32-bit clock are packed
//! into MTU-bounded packets and pushed over a notification channel. The
//! library holds the wire codec, the wrapping clock model with its
//! resynchronization policy, the adaptive latency controller, the pruning
//! message store, the control-loop step, and the supervisory handle; the
//! transport itself lives outside.

pub mod clock;
pub mod codec;
pub mod control;
pub mod latency;
pub mod msg;
pub mod sender;
pub mod store;

pub use msg::{Command, Error, LedMsg};
pub use sender::BluetoothSender;
