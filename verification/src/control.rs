//! The control loop's decision core: the loop-owned state, the handling
//! of one command batch, the echo boundary check, the queue-poll
//! verdict, and the diagnostic counters.

use vstd::prelude::*;

use crate::clock::{spec_should_notify, should_notify, time_fn, ClockState};
use crate::codec;
use crate::codec::{chunks_msgs, from_be32, parse};
use crate::latency::{after_echo, LatencyModel};
use crate::msg::{Error, LedMsg};
use crate::store::{pruned, MessageStore};

verus! {

// ---------------------------------------------------------------------
// Diagnostics.
// ---------------------------------------------------------------------

/// Saturating 64-bit add, for counters with no correctness role.
pub open spec fn sat_add(a: u64, b: u64) -> u64 {
    if a + b > u64::MAX {
        u64::MAX
    } else {
        (a + b) as u64
    }
}

/// Throughput counters: packets and bytes, for the current reporting
/// period and since the start.
#[derive(Clone, Copy, Debug, PartialEq, Eq, Structural)]
pub struct StatsAccumulator {
    pub sent_pkts: u64,
    pub sent_bytes: u64,
    pub sent_pkts_total: u64,
    pub sent_bytes_total: u64,
}

impl StatsAccumulator {
    pub fn new() -> (s: StatsAccumulator)
        ensures
            s == (StatsAccumulator {
                sent_pkts: 0,
                sent_bytes: 0,
                sent_pkts_total: 0,
                sent_bytes_total: 0,
            }),
    {
        StatsAccumulator { sent_pkts: 0, sent_bytes: 0, sent_pkts_total: 0, sent_bytes_total: 0 }
    }

    /// Count one sent notification of `len` bytes.
    pub fn record_packet(&mut self, len: u64)
        ensures
            final(self).sent_pkts == sat_add(old(self).sent_pkts, 1),
            final(self).sent_bytes == sat_add(old(self).sent_bytes, len),
            final(self).sent_pkts_total == sat_add(old(self).sent_pkts_total, 1),
            final(self).sent_bytes_total == sat_add(old(self).sent_bytes_total, len),
    {
        self.sent_pkts = sat_add_ex(self.sent_pkts, 1);
        self.sent_bytes = sat_add_ex(self.sent_bytes, len);
        self.sent_pkts_total = sat_add_ex(self.sent_pkts_total, 1);
        self.sent_bytes_total = sat_add_ex(self.sent_bytes_total, len);
    }

    /// Start a new reporting period, keeping the running totals.
    pub fn reset_period(&mut self)
        ensures
            final(self).sent_pkts == 0,
            final(self).sent_bytes == 0,
            final(self).sent_pkts_total == old(self).sent_pkts_total,
            final(self).sent_bytes_total == old(self).sent_bytes_total,
    {
        self.sent_pkts = 0;
        self.sent_bytes = 0;
    }
}

fn sat_add_ex(a: u64, b: u64) -> (r: u64)
    ensures
        r == sat_add(a, b),
{
    if a <= u64::MAX - b {
        a + b
    } else {
        u64::MAX
    }
}

// ---------------------------------------------------------------------
// Queue-poll verdicts.
// ---------------------------------------------------------------------

/// What one non-blocking poll of the command queue yielded, lifecycle-
/// wise.
#[derive(Clone, Copy, Debug, PartialEq, Eq, Structural)]
pub enum QueueEvent {
    /// A batch of messages to send.
    Batch,
    /// A shutdown request.
    Terminate,
    /// A liveness probe.
    Alive,
    /// Nothing queued.
    Empty,
    /// The producer dropped its handle.
    Disconnected,
}

/// What the loop does next.
#[derive(Clone, Copy, Debug, PartialEq, Eq, Structural)]
pub enum LoopVerdict {
    /// Process the batch and keep running.
    ProcessBatch,
    /// Keep running.
    Continue,
    /// Exit, reporting success.
    ExitOk,
    /// Exit, reporting the lost producer as fatal.
    ExitDisconnected,
}

/// The lifecycle decision for one queue poll: a batch is processed, a
/// shutdown request exits cleanly, a liveness probe and an empty queue
/// are no-ops, and a lost producer is fatal.
pub fn queue_verdict(e: &QueueEvent) -> (v: LoopVerdict)
    ensures
        v == (match e {
            QueueEvent::Batch => LoopVerdict::ProcessBatch,
            QueueEvent::Terminate => LoopVerdict::ExitOk,
            QueueEvent::Alive => LoopVerdict::Continue,
            QueueEvent::Empty => LoopVerdict::Continue,
            QueueEvent::Disconnected => LoopVerdict::ExitDisconnected,
        }),
{
    match e {
        QueueEvent::Batch => LoopVerdict::ProcessBatch,
        QueueEvent::Terminate => LoopVerdict::ExitOk,
        QueueEvent::Alive => LoopVerdict::Continue,
        QueueEvent::Empty => LoopVerdict::Continue,
        QueueEvent::Disconnected => LoopVerdict::ExitDisconnected,
    }
}

// ---------------------------------------------------------------------
// The loop-owned state and the batch step.
// ---------------------------------------------------------------------

/// The store after upserting a batch in order, last write winning.
pub open spec fn upserted(entries: Seq<Option<LedMsg>>, msgs: Seq<LedMsg>) -> Seq<Option<LedMsg>>
    decreases msgs.len(),
{
    if msgs.len() == 0 {
        entries
    } else {
        upserted(
            entries.update(msgs[0].element as int, Option::Some(msgs[0])),
            msgs.drop_first(),
        )
    }
}

pub proof fn lemma_upserted_push(entries: Seq<Option<LedMsg>>, msgs: Seq<LedMsg>, m: LedMsg)
    ensures
        upserted(entries, msgs.push(m)) == upserted(entries, msgs).update(
            m.element as int,
            Option::Some(m),
        ),
    decreases msgs.len(),
{
    if msgs.len() == 0 {
        let mp = msgs.push(m);
        assert(mp[0] == m);
        assert(mp.drop_first() =~= Seq::<LedMsg>::empty());
        assert(upserted(entries, mp) == upserted(
            entries.update(m.element as int, Option::Some(m)),
            mp.drop_first(),
        ));
    } else {
        let mp = msgs.push(m);
        assert(mp[0] == msgs[0]);
        assert(mp.drop_first() =~= msgs.drop_first().push(m));
        lemma_upserted_push(
            entries.update(msgs[0].element as int, Option::Some(msgs[0])),
            msgs.drop_first(),
            m,
        );
    }
}

/// Everything the control loop owns outright once it is running.
pub struct LoopState {
    pub clock: ClockState,
    pub store: MessageStore,
    pub latency: LatencyModel,
    pub last_sent: u32,
    pub last_notify: u64,
    pub stats: StatsAccumulator,
}

/// What processing one batch hands back to the transport: whether to
/// push a clock resync, and the MTU-sized packets to notify.
pub struct BatchOutput {
    pub notify_clock: bool,
    pub chunks: Vec<Vec<u8>>,
}

impl LoopState {
    pub open spec fn wf(self) -> bool {
        &&& self.store.wf()
        &&& self.latency.wf()
    }

    /// Fresh loop state at instant `now`: zero clock just set, empty
    /// store, default latency controller.
    pub fn new(now: u64) -> (s: LoopState)
        ensures
            s.wf(),
            s.clock.base_time == 0,
            s.clock.base_instant == now,
            s.latency == (crate::latency::LatencyModel {
                interval_micros: 31250u64,
                window_sum: 0i64,
                prev_window_sum: 0i64,
                sample_count: 0u32,
            }),
            s.last_sent == 0,
            s.last_notify == now,
            (forall|i: int| 0 <= i < 256 ==> s.store.entries()[i] is None),
    {
        LoopState {
            clock: ClockState::new(now),
            store: MessageStore::new(),
            latency: LatencyModel::new(),
            last_sent: 0,
            last_notify: now,
            stats: StatsAccumulator::new(),
        }
    }

    /// The echo boundary: a peer write must be exactly a 4-byte
    /// big-endian timestamp; anything else is rejected without touching
    /// the loop state. A valid echo becomes one latency sample against
    /// the last transmitted reference timestamp.
    pub fn handle_echo(&mut self, bytes: &[u8]) -> (r: Result<(), Error>)
        requires
            old(self).wf(),
        ensures
            final(self).wf(),
            match r {
                Result::Ok(_) => {
                    &&& bytes@.len() == 4
                    &&& final(self).latency == after_echo(
                        old(self).latency,
                        old(self).last_sent,
                        from_be32(bytes@[0], bytes@[1], bytes@[2], bytes@[3]),
                    )
                    &&& final(self).clock == old(self).clock
                    &&& final(self).store == old(self).store
                    &&& final(self).last_sent == old(self).last_sent
                    &&& final(self).last_notify == old(self).last_notify
                    &&& final(self).stats == old(self).stats
                },
                Result::Err(e) => {
                    &&& bytes@.len() != 4
                    &&& e matches Error::BadInput(_)
                    &&& *final(self) == *old(self)
                },
            },
    {
        if bytes.len() != 4 {
            return Result::Err(Error::BadInput("invalid echo length".to_string()));
        }
        let b0 = bytes[0] as u32;
        let b1 = bytes[1] as u32;
        let b2 = bytes[2] as u32;
        let b3 = bytes[3] as u32;
        let observed = b0 * 0x100_0000 + b1 * 0x1_0000 + b2 * 0x100 + b3;
        self.latency.record_echo(self.last_sent, observed);
        Result::Ok(())
    }

    /// Process one `SendBatch` command: rebase the clock onto the
    /// batch's leading timestamp, decide the resync notification, upsert
    /// every message, prune the store against the new current time,
    /// record the reference timestamp, and pack the batch into MTU-sized
    /// packets. An empty batch is ignored.
    #[verifier::rlimit(50)]
    pub fn process_batch(&mut self, msgs: &[LedMsg], producer_start: u64, now: u64, mtu: usize) -> (out:
        BatchOutput)
        requires
            old(self).wf(),
            producer_start <= now,
            old(self).clock.base_instant <= now,
            old(self).last_notify <= now,
            mtu >= 12,
        ensures
            final(self).wf(),
            msgs@.len() == 0 ==> *final(self) == *old(self) && !out.notify_clock && out.chunks@.len()
                == 0,
            msgs@.len() > 0 ==> ({
                let old_time = old(self).clock.spec_current(now);
                let cur_time = crate::clock::extrapolated(msgs@[0].cur_time, producer_start, now);
                let notify = spec_should_notify(
                    cur_time,
                    old_time,
                    (now - old(self).last_notify) as u64,
                );
                &&& out.notify_clock == notify
                &&& final(self).clock.base_time == cur_time
                &&& final(self).clock.base_instant == now
                &&& final(self).last_notify == (if notify {
                    now
                } else {
                    old(self).last_notify
                })
                &&& final(self).last_sent == msgs@[0].cur_time
                &&& final(self).store.entries() == pruned(
                    upserted(old(self).store.entries(), msgs@),
                    cur_time,
                )
                &&& final(self).latency == old(self).latency
                &&& final(self).stats == old(self).stats
                &&& forall|j: int| 0 <= j < out.chunks@.len() ==> parse(out.chunks@[j]@) is Ok
                &&& forall|j: int| 0 <= j < out.chunks@.len() ==> out.chunks@[j]@.len() <= mtu
                &&& chunks_msgs(out.chunks@.map_values(|c: Vec<u8>| c@)) == msgs@
                &&& out.chunks@.len() > 0
            }),
    {
        if msgs.len() == 0 {
            return BatchOutput { notify_clock: false, chunks: Vec::new() };
        }
        let old_time = self.clock.current_time(now);
        let cur_time = time_fn(msgs[0].cur_time, producer_start, now);
        self.clock.rebase(cur_time, now);
        let notify = should_notify(cur_time, old_time, now - self.last_notify);
        if notify {
            self.last_notify = now;
        }
        let ghost entries0 = self.store.entries();
        let ghost lat0 = self.latency;
        let ghost clock0 = self.clock;
        let ghost notify0 = self.last_notify;
        let ghost sent0 = self.last_sent;
        let ghost stats0 = self.stats;
        let mut i: usize = 0;
        while i < msgs.len()
            invariant
                i <= msgs@.len(),
                self.store.wf(),
                self.store.entries() == upserted(entries0, msgs@.take(i as int)),
                self.latency == lat0,
                self.clock == clock0,
                self.last_notify == notify0,
                self.last_sent == sent0,
                self.stats == stats0,
            decreases msgs@.len() - i,
        {
            proof {
                assert(msgs@.take(i + 1) =~= msgs@.take(i as int).push(msgs@[i as int]));
                lemma_upserted_push(entries0, msgs@.take(i as int), msgs@[i as int]);
            }
            self.store.set(msgs[i]);
            i = i + 1;
        }
        assert(msgs@.take(msgs@.len() as int) =~= msgs@);
        self.store.prune(cur_time);
        assert(self.store.entries() =~= pruned(upserted(entries0, msgs@), cur_time));
        self.last_sent = msgs[0].cur_time;
        let chunks = codec::chunk_messages(msgs, mtu, Option::Some(self.last_sent));
        BatchOutput { notify_clock: notify, chunks }
    }
}

} // verus!
