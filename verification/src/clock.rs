//! Shared wrapping clock: extrapolation from a rebased base reading, and
//! the resynchronization-notify policy.
//!
//! Instants are monotonic microsecond counts; readings live on the
//! wrapping 32-bit protocol clock.

use vstd::prelude::*;

use crate::codec::wrap_diff;

verus! {

/// A base clock reading extrapolated by the microseconds elapsed since
/// it was set, wrapped mod 2^32.
pub open spec fn extrapolated(time: u32, last_set: u64, now: u64) -> u32
    recommends
        last_set <= now,
{
    ((time + (now - last_set)) % 0x1_0000_0000) as u32
}

/// Extrapolate a clock reading `time` taken at `last_set` out to `now`.
pub fn time_fn(time: u32, last_set: u64, now: u64) -> (r: u32)
    requires
        last_set <= now,
    ensures
        r == extrapolated(time, last_set, now),
{
    let elapsed: u64 = now - last_set;
    let e32: u32 = (elapsed % 0x1_0000_0000) as u32;
    proof {
        vstd::arithmetic::div_mod::lemma_add_mod_noop(
            time as int,
            elapsed as int,
            0x1_0000_0000,
        );
        vstd::arithmetic::div_mod::lemma_small_mod(time as nat, 0x1_0000_0000);
    }
    time.wrapping_add(e32)
}

/// Whether two readings of the wrapping clock lie more than `bound`
/// units apart, in the signed wrapped order (a distance of exactly 2^31
/// counts as apart).
pub open spec fn wrapped_apart(a: u32, b: u32, bound: u32) -> bool
    recommends
        bound < 0x8000_0000,
{
    bound < wrap_diff(a, b) < 0x1_0000_0000 - bound
}

/// `wrapped_apart` is exactly "the signed wrapped difference exceeds
/// `bound` in magnitude", with a distance of exactly 2^31 counting as
/// apart.
pub proof fn lemma_wrapped_apart_signed(a: u32, b: u32, bound: u32)
    requires
        bound < 0x8000_0000,
    ensures
        wrapped_apart(a, b, bound) <==> (crate::codec::signed_diff(a, b) > bound
            || crate::codec::signed_diff(a, b) < -(bound as int)),
{
}

/// Exec check of `wrapped_apart`.
pub fn is_wrapped_apart(a: u32, b: u32, bound: u32) -> (r: bool)
    requires
        bound < 0x8000_0000,
    ensures
        r == wrapped_apart(a, b, bound),
{
    let d = a.wrapping_sub(b);
    bound < d && d <= 0xFFFF_FFFF - bound
}

/// The resync policy: notify the clock subscribers when the fresh batch
/// time has jumped more than 5000 units away from the old extrapolation,
/// or when more than 5000 ms of wall time have passed since the last
/// notification.
pub open spec fn spec_should_notify(new_time: u32, old_time: u32, micros_since_notify: u64) -> bool {
    wrapped_apart(new_time, old_time, 5000) || micros_since_notify / 1000 > 5000
}

/// Exec form of the resync policy.
pub fn should_notify(new_time: u32, old_time: u32, micros_since_notify: u64) -> (r: bool)
    ensures
        r == spec_should_notify(new_time, old_time, micros_since_notify),
{
    is_wrapped_apart(new_time, old_time, 5000) || micros_since_notify / 1000 > 5000
}

/// The loop's view of the shared clock: a base reading and the instant
/// it was taken.
#[derive(Clone, Copy, Debug, PartialEq, Eq, Structural)]
pub struct ClockState {
    pub base_time: u32,
    pub base_instant: u64,
}

impl ClockState {
    /// A clock that read zero at `now`.
    pub fn new(now: u64) -> (c: ClockState)
        ensures
            c.base_time == 0,
            c.base_instant == now,
    {
        ClockState { base_time: 0, base_instant: now }
    }

    /// What the shared clock reads at `now`.
    pub open spec fn spec_current(self, now: u64) -> u32
        recommends
            self.base_instant <= now,
    {
        extrapolated(self.base_time, self.base_instant, now)
    }

    /// Read the shared clock at `now`.
    pub fn current_time(&self, now: u64) -> (r: u32)
        requires
            self.base_instant <= now,
        ensures
            r == self.spec_current(now),
    {
        time_fn(self.base_time, self.base_instant, now)
    }

    /// Rebase the clock to read `time` at `now`.
    pub fn rebase(&mut self, time: u32, now: u64)
        ensures
            final(self).base_time == time,
            final(self).base_instant == now,
    {
        self.base_time = time;
        self.base_instant = now;
    }
}

} // verus!
