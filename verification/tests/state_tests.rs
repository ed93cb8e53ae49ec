use ecp_sender::clock::{should_notify, time_fn, ClockState};
use ecp_sender::codec::deserialize;
use ecp_sender::control::{LoopState, LoopVerdict, QueueEvent, StatsAccumulator};
use ecp_sender::latency::LatencyModel;
use ecp_sender::msg::{Command, Error, LedMsg};
use ecp_sender::store::MessageStore;

#[test]
fn time_fn_wraps() {
    assert_eq!(time_fn(0, 0, 125), 125);
    assert_eq!(time_fn(1000, 500, 700), 1200);
    // wraps mod 2^32
    assert_eq!(time_fn(0xFFFF_FFFF, 0, 1), 0);
    assert_eq!(time_fn(5, 0, 0x1_0000_0000), 5);
}

#[test]
fn latency_clamp_holds() {
    let mut m = LatencyModel::new();
    assert_eq!(m.interval_micros, 31250);
    // growing latency for many windows: the interval must stay <= 500 ms
    for w in 0..64u32 {
        for _ in 0..32 {
            m.record_echo(10_000 + w * 1000, 0);
        }
        assert!(m.interval_micros <= 500_000);
        assert!(m.interval_micros >= 1);
    }
    assert_eq!(m.interval_micros, 500_000);
}

#[test]
fn latency_shrinks_geometrically() {
    let mut m = LatencyModel::new();
    let mut expected = 31250u64;
    // zero-diff samples: every window closes with growth <= 0
    for _ in 0..32 {
        for _ in 0..32 {
            m.record_echo(1234, 1234);
        }
        expected = (expected * 31 / 32).max(1);
        assert_eq!(m.interval_micros, expected);
    }
}

#[test]
fn latency_grows_on_positive_growth() {
    let mut m = LatencyModel::new();
    // first window: zero sums, growth 0 -> shrink
    for _ in 0..32 {
        m.record_echo(100, 100);
    }
    let after_first = m.interval_micros;
    assert_eq!(after_first, 31250 * 31 / 32);
    // second window: positive sum, growth > 0 -> grow by 40/32
    for _ in 0..32 {
        m.record_echo(200, 100);
    }
    assert_eq!(m.interval_micros, (after_first * 40 / 32).min(500_000));
}

#[test]
fn pruning_drops_stale_keeps_fresh() {
    let mut store = MessageStore::new();
    let fresh = LedMsg {
        element: 1,
        cmd: Command::Flat(1),
        cur_time: 9_000_000,
    };
    let stale = LedMsg {
        element: 2,
        cmd: Command::Flat(2),
        cur_time: 3_999_999,
    };
    let boundary = LedMsg {
        element: 3,
        cmd: Command::Flat(3),
        cur_time: 4_000_000,
    };
    let future = LedMsg {
        element: 4,
        cmd: Command::Flat(4),
        cur_time: 14_000_000,
    };
    let too_future = LedMsg {
        element: 5,
        cmd: Command::Flat(5),
        cur_time: 14_000_001,
    };
    for m in [fresh, stale, boundary, future, too_future] {
        store.set(m);
    }
    // reference time 9_000_000: stale is 5_000_001 old, boundary exactly
    // 5_000_000 old, future 5_000_000 ahead, too_future 5_000_001 ahead
    store.prune(9_000_000);
    let kept = store.snapshot(0);
    assert_eq!(kept, vec![fresh, boundary, future]);
}

#[test]
fn snapshot_orders_and_packs() {
    let mut store = MessageStore::new();
    let a = LedMsg {
        element: 70,
        cmd: Command::PulseLinear(9),
        cur_time: 500,
    };
    let b = LedMsg {
        element: 65,
        cmd: Command::Null,
        cur_time: 510,
    };
    store.set(a);
    store.set(b);
    // the second 64-wide range, in increasing element order
    let snap = store.snapshot(64);
    assert_eq!(snap, vec![b, a]);
    let packet = store.snapshot_packet(64);
    let decoded = deserialize(&packet).unwrap();
    assert_eq!(decoded, vec![b, a]);
    // an untouched range gives an empty packet
    let packet = store.snapshot_packet(128);
    assert_eq!(deserialize(&packet).unwrap(), vec![]);
}

#[test]
fn clock_resync_fires_on_jump() {
    // a fresh loop at instant 0 extrapolates near zero; a batch claiming
    // time 100_000 jumps well past the 5000-unit threshold
    let mut ls = LoopState::new(0);
    let msg = LedMsg {
        element: 0,
        cmd: Command::Null,
        cur_time: 100_000,
    };
    let out = ls.process_batch(&[msg], 0, 0, 20);
    assert!(out.notify_clock);
    assert_eq!(ls.clock.base_time, 100_000);
}

#[test]
fn clock_resync_quiet_on_small_drift() {
    let mut ls = LoopState::new(0);
    let first = LedMsg {
        element: 0,
        cmd: Command::Null,
        cur_time: 1_000,
    };
    let out = ls.process_batch(&[first], 0, 0, 20);
    // 1000 units from the fresh zero clock: under the threshold
    assert!(!out.notify_clock);
    // 400 micros later the loop extrapolates 1_400; a batch claiming
    // 1_900 drifts by 500, under the threshold, within 5000 ms of wall
    // time since the last notification
    let second = LedMsg {
        element: 0,
        cmd: Command::Null,
        cur_time: 1_800,
    };
    let out = ls.process_batch(&[second], 300, 400, 20);
    assert!(!out.notify_clock);
}

#[test]
fn clock_resync_fires_on_wall_time() {
    let mut ls = LoopState::new(0);
    let first = LedMsg {
        element: 0,
        cmd: Command::Null,
        cur_time: 1_000,
    };
    ls.process_batch(&[first], 0, 0, 20);
    // more than 5000 ms of wall time without a notification
    let second = LedMsg {
        element: 0,
        cmd: Command::Null,
        cur_time: 1_000 + 6_000_000,
    };
    let out = ls.process_batch(&[second], 6_000_000, 6_000_000, 20);
    assert!(out.notify_clock);
}

#[test]
fn echo_boundary_rejects_bad_length() {
    let mut ls = LoopState::new(0);
    let r = ls.handle_echo(&[1, 2, 3]);
    assert!(matches!(r, Err(Error::BadInput(_))));
    let r = ls.handle_echo(&[0, 0, 0, 7]);
    assert!(r.is_ok());
    assert_eq!(ls.latency.sample_count, 1);
}

#[test]
fn queue_verdicts() {
    assert_eq!(
        ecp_sender::control::queue_verdict(&QueueEvent::Batch),
        LoopVerdict::ProcessBatch
    );
    assert_eq!(
        ecp_sender::control::queue_verdict(&QueueEvent::Terminate),
        LoopVerdict::ExitOk
    );
    assert_eq!(
        ecp_sender::control::queue_verdict(&QueueEvent::Alive),
        LoopVerdict::Continue
    );
    assert_eq!(
        ecp_sender::control::queue_verdict(&QueueEvent::Empty),
        LoopVerdict::Continue
    );
    assert_eq!(
        ecp_sender::control::queue_verdict(&QueueEvent::Disconnected),
        LoopVerdict::ExitDisconnected
    );
}

#[test]
fn stats_accumulate_and_reset() {
    let mut s = StatsAccumulator::new();
    s.record_packet(20);
    s.record_packet(15);
    assert_eq!(s.sent_pkts, 2);
    assert_eq!(s.sent_bytes, 35);
    s.reset_period();
    assert_eq!(s.sent_pkts, 0);
    assert_eq!(s.sent_bytes, 0);
    assert_eq!(s.sent_pkts_total, 2);
    assert_eq!(s.sent_bytes_total, 35);
    // the counters saturate rather than wrap
    s.record_packet(u64::MAX);
    s.record_packet(u64::MAX);
    assert_eq!(s.sent_bytes_total, u64::MAX);
}

#[test]
fn interval_passed_to_clock_extrapolation() {
    let c = ClockState::new(1_000);
    assert_eq!(c.current_time(1_500), 500);
    assert!(!should_notify(1_000, 1_000, 0));
    assert!(should_notify(10_000, 1_000, 0));
    assert!(should_notify(1_000, 1_000, 5_001_000));
}
