use ecp_sender::codec::{chunk_messages, deserialize, serialize};
use ecp_sender::msg::{CodecError, Command, LedMsg};

use rand::rngs::StdRng;
use rand::seq::SliceRandom;
use rand::{Rng, SeedableRng};

fn rng() -> StdRng {
    let mut seed = [0; 32];
    for (i, v) in seed.iter_mut().enumerate() {
        *v = i as u8;
    }
    StdRng::from_seed(seed)
}

fn generate_test_msgs() -> Vec<LedMsg> {
    let mut test_vals = vec![
        LedMsg {
            cmd: Command::Null,
            cur_time: 0,
            element: 0,
        };
        255
    ];
    let mut rng = rng();

    for (i, cmd) in [
        Command::Null,
        Command::Flat(0),
        Command::FlatStack(0),
        Command::PulseLinear(0),
        Command::PulseQuadratic(0),
    ]
    .iter()
    .enumerate()
    {
        for msg in test_vals[i * 51..(i + 1) * 51].iter_mut() {
            let cmd = match cmd {
                Command::Null => Command::Null,
                Command::Flat(_) => Command::Flat(rng.gen()),
                Command::FlatStack(_) => Command::FlatStack(rng.gen()),
                Command::PulseLinear(_) => Command::PulseLinear(rng.gen()),
                Command::PulseQuadratic(_) => Command::PulseQuadratic(rng.gen()),
            };
            msg.cmd = cmd;
        }
    }
    test_vals.shuffle(&mut rng);
    for i in 0..4 {
        for msg in test_vals.iter_mut().skip(i).step_by(4) {
            let cur_time: u32 = rng.gen();
            msg.cur_time = cur_time >> (i * 8);
            msg.element = rng.gen();
        }
    }
    test_vals
}

#[test]
fn serial_deserialize() {
    let test_vals = generate_test_msgs();
    let mut i = 0;
    // serialize
    while i < test_vals.len() {
        let (buf, msgs) = serialize(&test_vals[i..], 255, None);
        println!("bytes: {}, msgs: {}", buf.len(), msgs);
        println!("{:#?}", &test_vals[i..i + msgs]);
        let cpy = deserialize(&buf).unwrap();
        assert_eq!(&test_vals[i..i + msgs], &cpy[..]);
        i += msgs;
    }
}

#[test]
fn round_trip_with_baseline() {
    let msgs = [
        LedMsg {
            element: 1,
            cmd: Command::Flat(10),
            cur_time: 1000,
        },
        LedMsg {
            element: 200,
            cmd: Command::Null,
            cur_time: 980,
        },
        // a delta too wide for 16 bits, forcing the full-time form
        LedMsg {
            element: 7,
            cmd: Command::PulseQuadratic(255),
            cur_time: 0x8000_0000,
        },
        // wraps around zero relative to the baseline
        LedMsg {
            element: 8,
            cmd: Command::FlatStack(3),
            cur_time: 0xFFFF_FFF0,
        },
    ];
    for baseline in [None, Some(1000u32), Some(0u32), Some(0xFFFF_FFFFu32)] {
        let (buf, consumed) = serialize(&msgs, 512, baseline);
        assert_eq!(consumed, msgs.len());
        let cpy = deserialize(&buf).unwrap();
        assert_eq!(&msgs[..], &cpy[..]);
    }
}

#[test]
fn round_trip_empty() {
    let (buf, consumed) = serialize(&[], 255, Some(42));
    assert_eq!(consumed, 0);
    assert_eq!(buf.len(), 0);
    let cpy = deserialize(&buf).unwrap();
    assert_eq!(cpy.len(), 0);
}

#[test]
fn serialize_never_fabricates_partial_records() {
    let msgs = [LedMsg {
        element: 3,
        cmd: Command::Flat(9),
        cur_time: 0x1234_5678,
    }];
    // header (1) + full record (7) needs 8 bytes without a baseline
    let (buf, consumed) = serialize(&msgs, 7, None);
    assert_eq!(consumed, 0);
    assert_eq!(buf.len(), 0);
    let (buf, consumed) = serialize(&msgs, 8, None);
    assert_eq!(consumed, 1);
    assert_eq!(buf.len(), 8);
}

#[test]
fn chunking_completeness() {
    let test_vals = generate_test_msgs();
    // the manual resume loop, as a receiver would see it
    let mut collected = Vec::new();
    let mut consumed_sum = 0;
    let mut i = 0;
    while i < test_vals.len() {
        let (buf, msgs) = serialize(&test_vals[i..], 20, Some(test_vals[i].cur_time));
        assert!(msgs > 0);
        assert!(buf.len() <= 20);
        collected.extend(deserialize(&buf).unwrap());
        consumed_sum += msgs;
        i += msgs;
    }
    assert_eq!(consumed_sum, test_vals.len());
    assert_eq!(collected, test_vals);

    // the library's own chunker
    let chunks = chunk_messages(&test_vals, 20, Some(test_vals[0].cur_time));
    let mut collected = Vec::new();
    for chunk in &chunks {
        assert!(chunk.len() <= 20);
        collected.extend(deserialize(chunk).unwrap());
    }
    assert_eq!(collected, test_vals);
}

#[test]
fn deserialize_rejects_truncated() {
    let msgs = [LedMsg {
        element: 1,
        cmd: Command::Flat(10),
        cur_time: 1000,
    }];
    let (buf, consumed) = serialize(&msgs, 255, None);
    assert_eq!(consumed, 1);
    let r = deserialize(&buf[..buf.len() - 1]);
    assert_eq!(r, Err(CodecError::Truncated));
    // a baseline header cut short
    let r = deserialize(&[1u8, 0, 0]);
    assert_eq!(r, Err(CodecError::Truncated));
}

#[test]
fn deserialize_rejects_unknown_tag() {
    // plain header, then a record with command kind 5
    let r = deserialize(&[0u8, 5, 1, 0, 0, 0, 0, 0]);
    assert_eq!(r, Err(CodecError::UnknownTag));
    let r = deserialize(&[0u8, 0x1F, 1, 0, 0, 0, 0, 0]);
    assert_eq!(r, Err(CodecError::UnknownTag));
}

#[test]
fn deserialize_rejects_bad_header() {
    let r = deserialize(&[9u8]);
    assert_eq!(r, Err(CodecError::BadHeader));
    // a delta record under a plain (baseline-less) header
    let r = deserialize(&[0u8, 1, 1, 0, 0, 0]);
    assert_eq!(r, Err(CodecError::BadHeader));
}

#[test]
fn delta_encoding_is_compact() {
    // 100 units from the baseline: 5-byte record instead of 7
    let msgs = [LedMsg {
        element: 1,
        cmd: Command::Flat(10),
        cur_time: 1100,
    }];
    let (with_base, consumed) = serialize(&msgs, 255, Some(1000));
    assert_eq!(consumed, 1);
    assert_eq!(with_base.len(), 5 + 5);
    let (without, consumed) = serialize(&msgs, 255, None);
    assert_eq!(consumed, 1);
    assert_eq!(without.len(), 1 + 7);
}
