//! The supervisory handle a producer holds: a bounded command queue
//! into the control loop, an exit-report channel out of it, and the
//! lifecycle bookkeeping around both.

use vstd::prelude::*;

use std::sync::mpsc::{Receiver, SyncSender};
use std::time::Instant;

use crate::msg::{Error, LedMsg};

verus! {

/// Declares std::sync::mpsc::SyncSender, the producer's end of the
/// bounded command queue; its values are opaque here.
#[verifier::external_type_specification]
#[verifier::external_body]
#[verifier::reject_recursive_types(T)]
pub struct ExSyncSender<T>(SyncSender<T>);

/// Declares std::sync::mpsc::Receiver, the handle's end of the loop's
/// exit-report channel; its values are opaque here.
#[verifier::external_type_specification]
#[verifier::external_body]
#[verifier::reject_recursive_types(T)]
pub struct ExReceiver<T>(Receiver<T>);

/// Declares std::time::Instant, the opaque monotonic capture instant a
/// batch carries to the loop.
#[verifier::external_type_specification]
#[verifier::external_body]
pub struct ExInstant(Instant);

/// A command for the control loop: a batch to send together with the
/// instant the producer captured it, a shutdown request, or a liveness
/// probe.
pub enum BMsg {
    SendMsg(Vec<LedMsg>, Instant),
    Terminate,
    Alive,
}

/// Whether the loop's exit status has already been reaped.
#[derive(Clone, Copy, Debug, PartialEq, Eq, Structural)]
pub enum Status {
    Running,
    Terminated,
}

/// Relies on std::sync::mpsc::SyncSender::send: it blocks while the
/// bounded queue is full and returns Err exactly when the receiving
/// side is gone; nothing about the outcome is knowable in advance, so
/// nothing more is assumed.
#[verifier::external_body]
fn send_bmsg(s: &SyncSender<BMsg>, m: BMsg) -> (ok: bool) {
    s.send(m).is_ok()
}

/// Relies on std::sync::mpsc::Receiver::recv: it blocks until a value
/// arrives or every sender is gone; `None` stands for the latter.
#[verifier::external_body]
fn recv_exit(r: &Receiver<Result<(), Error>>) -> (e: Option<Result<(), Error>>) {
    match r.recv() {
        Ok(v) => Option::Some(v),
        Err(_) => Option::None,
    }
}

/// Relies on std::time::Instant::now for an opaque monotonic capture
/// instant; the value itself is meaningful only to the loop that later
/// measures against it.
#[verifier::external_body]
fn instant_now() -> (t: Instant) {
    Instant::now()
}

/// The producer-facing handle over the control loop.
pub struct BluetoothSender {
    sender: SyncSender<BMsg>,
    exit: Receiver<Result<(), Error>>,
    status: Status,
}

impl BluetoothSender {
    /// Whether the loop's exit status is still unreaped.
    pub closed spec fn running(self) -> bool {
        self.status is Running
    }

    /// Assemble a handle from the loop's command queue and exit-report
    /// channel.
    pub fn from_parts(sender: SyncSender<BMsg>, exit: Receiver<Result<(), Error>>) -> (s:
        BluetoothSender)
        ensures
            s.running(),
    {
        BluetoothSender { sender, exit, status: Status::Running }
    }

    /// Probe the loop with a liveness no-op; a refused enqueue means it
    /// has exited. The outcome rests with the loop thread, so nothing
    /// is promised of it.
    pub fn is_alive(&self) -> (r: bool) {
        send_bmsg(&self.sender, BMsg::Alive)
    }

    /// Request shutdown and collect the loop's terminal result. A
    /// handle whose loop exit was already reaped refuses with
    /// `BadInput`; otherwise the result is the loop's own report, or
    /// `ChannelDisconnected` when the loop vanished without one.
    pub fn terminate(self) -> (r: Result<(), Error>)
        ensures
            !self.running() ==> (r matches Result::Err(e) && e matches Error::BadInput(_)),
    {
        match self.status {
            Status::Terminated => Result::Err(
                Error::BadInput("sender already terminated".to_string()),
            ),
            Status::Running => {
                let _ = send_bmsg(&self.sender, BMsg::Terminate);
                match recv_exit(&self.exit) {
                    Option::Some(res) => res,
                    Option::None => Result::Err(Error::ChannelDisconnected),
                }
            },
        }
    }

    /// Enqueue a batch for sending. `Ok` means the loop accepted it; on
    /// failure the loop has stopped for good, its exit status is reaped
    /// synchronously, and its error — or `ChannelDisconnected` when
    /// there is none — is surfaced instead of dropping the batch
    /// silently.
    pub fn send(&mut self, msgs: &[LedMsg]) -> (r: Result<(), Error>)
        ensures
            r is Ok ==> *final(self) == *old(self),
            r is Err ==> !final(self).running(),
            !old(self).running() ==> r == Result::<(), Error>::Err(Error::ChannelDisconnected),
    {
        match self.status {
            Status::Terminated => Result::Err(Error::ChannelDisconnected),
            Status::Running => {
                let start = instant_now();
                let batch = vstd::slice::slice_to_vec(msgs);
                if send_bmsg(&self.sender, BMsg::SendMsg(batch, start)) {
                    Result::Ok(())
                } else {
                    self.status = Status::Terminated;
                    match recv_exit(&self.exit) {
                        Option::Some(res) => match res {
                            Result::Ok(_) => Result::Err(Error::ChannelDisconnected),
                            Result::Err(e) => Result::Err(e),
                        },
                        Option::None => Result::Err(Error::ChannelDisconnected),
                    }
                }
            },
        }
    }
}

} // verus!
