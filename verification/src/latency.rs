//! Adaptive latency controller: accumulate signed wrapped latency
//! samples and retune the send interval once per 32-sample window, with
//! asymmetric multiplicative response and a hard 500 ms ceiling.

use vstd::prelude::*;

use crate::codec::signed_diff;

verus! {

/// Samples per retune window.
pub open spec fn window_len() -> int {
    32
}

/// The interval ceiling, in microseconds (500 ms).
pub open spec fn max_interval() -> int {
    500_000
}

/// The retuned interval after a window closes with the given growth:
/// shrink to 31/32 on non-positive growth, grow to 40/32 otherwise,
/// clamped into (0, 500 ms].
pub open spec fn spec_retune(interval: u64, growth: int) -> u64 {
    if growth <= 0 {
        if interval * 31 / 32 < 1 {
            1u64
        } else {
            (interval * 31 / 32) as u64
        }
    } else {
        if interval * 40 / 32 > max_interval() {
            max_interval() as u64
        } else {
            (interval * 40 / 32) as u64
        }
    }
}

/// The controller state after folding in one echo sample.
pub open spec fn after_echo(m: LatencyModel, last_sent: u32, observed: u32) -> LatencyModel {
    let sum = m.window_sum + signed_diff(last_sent, observed);
    if m.sample_count == window_len() - 1 {
        LatencyModel {
            interval_micros: spec_retune(m.interval_micros, sum - m.prev_window_sum),
            window_sum: 0,
            prev_window_sum: sum as i64,
            sample_count: 0,
        }
    } else {
        LatencyModel {
            interval_micros: m.interval_micros,
            window_sum: sum as i64,
            prev_window_sum: m.prev_window_sum,
            sample_count: (m.sample_count + 1) as u32,
        }
    }
}

/// The latency controller's state: the adaptive send interval, the
/// running window accumulator, the previous window's total, and how many
/// samples the open window holds.
#[derive(Clone, Copy, Debug, PartialEq, Eq, Structural)]
pub struct LatencyModel {
    pub interval_micros: u64,
    pub window_sum: i64,
    pub prev_window_sum: i64,
    pub sample_count: u32,
}

impl LatencyModel {
    /// Well-formedness: the interval stays in (0, 500 ms], the open
    /// window holds fewer samples than a full window, and the
    /// accumulators are bounded by the worst case of their samples.
    pub open spec fn wf(self) -> bool {
        &&& 1 <= self.interval_micros <= max_interval()
        &&& self.sample_count < window_len()
        &&& -(self.sample_count as int) * 0x8000_0000 <= self.window_sum <= (
        self.sample_count as int) * 0x8000_0000
        &&& -window_len() * 0x8000_0000 <= self.prev_window_sum <= window_len() * 0x8000_0000
    }

    /// Start at 1/32 s with empty windows.
    pub fn new() -> (m: LatencyModel)
        ensures
            m.wf(),
            m.interval_micros == 31250,
            m.window_sum == 0,
            m.prev_window_sum == 0,
            m.sample_count == 0,
    {
        LatencyModel { interval_micros: 31250, window_sum: 0, prev_window_sum: 0, sample_count: 0 }
    }

    /// One peer echo: fold the signed wrapped difference between the
    /// last transmitted reference timestamp and the peer's observed one
    /// into the window; on the window's 32nd sample, retune the interval
    /// by the window-over-window growth and reset the window.
    pub fn record_echo(&mut self, last_sent: u32, observed: u32)
        requires
            old(self).wf(),
        ensures
            final(self).wf(),
            *final(self) == after_echo(*old(self), last_sent, observed),
            ({
                let sum = old(self).window_sum + signed_diff(last_sent, observed);
                if old(self).sample_count == window_len() - 1 {
                    let growth = sum - old(self).prev_window_sum;
                    &&& final(self).sample_count == 0
                    &&& final(self).window_sum == 0
                    &&& final(self).prev_window_sum == sum
                    &&& final(self).interval_micros == spec_retune(
                        old(self).interval_micros,
                        growth,
                    )
                } else {
                    &&& final(self).sample_count == old(self).sample_count + 1
                    &&& final(self).window_sum == sum
                    &&& final(self).prev_window_sum == old(self).prev_window_sum
                    &&& final(self).interval_micros == old(self).interval_micros
                }
            }),
    {
        let d = last_sent.wrapping_sub(observed);
        let diff: i64 = if d < 0x8000_0000 {
            d as i64
        } else {
            d as i64 - 0x1_0000_0000i64
        };
        assert(diff == signed_diff(last_sent, observed));
        self.window_sum = self.window_sum + diff;
        self.sample_count = self.sample_count + 1;
        if self.sample_count >= 32 {
            let growth: i64 = self.window_sum - self.prev_window_sum;
            let retuned: u64 = if growth <= 0 {
                let shrunk = self.interval_micros * 31 / 32;
                if shrunk < 1 {
                    1
                } else {
                    shrunk
                }
            } else {
                let grown = self.interval_micros * 40 / 32;
                if grown > 500_000 {
                    500_000
                } else {
                    grown
                }
            };
            self.interval_micros = retuned;
            self.prev_window_sum = self.window_sum;
            self.window_sum = 0;
            self.sample_count = 0;
        }
    }
}

/// The latency clamp, as a standing law: a well-formed controller's
/// interval never leaves (0, 500 ms], whatever echo sequence produced
/// it, since `new` establishes well-formedness and `record_echo`
/// preserves it.
pub proof fn lemma_interval_clamped(m: LatencyModel)
    requires
        m.wf(),
    ensures
        0 < m.interval_micros <= 500_000,
{
}

/// The clamp law for one retune: whatever the growth, the new interval
/// stays in (0, 500 ms].
pub proof fn lemma_retune_bounds(interval: u64, growth: int)
    requires
        1 <= interval <= max_interval(),
    ensures
        1 <= spec_retune(interval, growth) <= max_interval(),
{
}

/// The geometric-shrink law: a window that closes with non-positive
/// growth multiplies the interval by exactly 31/32 (floored, and never
/// below one microsecond).
pub proof fn lemma_shrink_geometric(interval: u64, growth: int)
    requires
        1 <= interval <= max_interval(),
        growth <= 0,
    ensures
        spec_retune(interval, growth) == (if interval * 31 / 32 < 1 {
            1int
        } else {
            interval * 31 / 32
        }),
        spec_retune(interval, growth) < interval || interval == 1,
{
}

} // verus!
