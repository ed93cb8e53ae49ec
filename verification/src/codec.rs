//! Binary wire codec.
//!
//! A packet is a one-byte mode header (optionally followed by a 32-bit
//! big-endian baseline timestamp) and a run of records. Each record is a
//! tag byte (command kind plus a wide-time flag), the element id, an
//! intensity byte, and either a full 32-bit timestamp or a 16-bit signed
//! delta from the baseline. `serialize` greedily packs the longest prefix
//! of a batch that fits a capacity; `deserialize` restores it exactly.

use vstd::prelude::*;

use crate::msg::{CodecError, Command, LedMsg};

verus! {

// ---------------------------------------------------------------------
// Wrapping 32-bit time arithmetic, at the spec level.
// ---------------------------------------------------------------------

/// `(a - b) mod 2^32`.
pub open spec fn wrap_diff(a: u32, b: u32) -> u32 {
    if a >= b {
        (a - b) as u32
    } else {
        (a - b + 0x1_0000_0000) as u32
    }
}

/// `(a + b) mod 2^32`.
pub open spec fn wrap_add32(a: u32, b: u32) -> u32 {
    if a + b <= 0xFFFF_FFFF {
        (a + b) as u32
    } else {
        (a + b - 0x1_0000_0000) as u32
    }
}

/// The signed wrapped difference `a - b`, in `[-2^31, 2^31)`.
pub open spec fn signed_diff(a: u32, b: u32) -> int {
    if wrap_diff(a, b) < 0x8000_0000 {
        wrap_diff(a, b) as int
    } else {
        wrap_diff(a, b) - 0x1_0000_0000
    }
}

/// Adding a wrapped difference back onto its base restores the first
/// timestamp.
pub proof fn lemma_wrap_cancel(t: u32, b: u32)
    ensures
        wrap_add32(b, wrap_diff(t, b)) == t,
{
}

// ---------------------------------------------------------------------
// Big-endian byte strings.
// ---------------------------------------------------------------------

pub open spec fn be32(x: u32) -> Seq<u8> {
    seq![
        (x / 0x100_0000) as u8,
        ((x / 0x1_0000) % 0x100) as u8,
        ((x / 0x100) % 0x100) as u8,
        (x % 0x100) as u8,
    ]
}

pub open spec fn from_be32(b0: u8, b1: u8, b2: u8, b3: u8) -> u32 {
    (b0 * 0x100_0000 + b1 * 0x1_0000 + b2 * 0x100 + b3) as u32
}

pub open spec fn be16(x: u16) -> Seq<u8> {
    seq![(x / 0x100) as u8, (x % 0x100) as u8]
}

pub open spec fn from_be16(b0: u8, b1: u8) -> u16 {
    (b0 * 0x100 + b1) as u16
}

pub proof fn lemma_be32_roundtrip(x: u32)
    ensures
        from_be32(be32(x)[0], be32(x)[1], be32(x)[2], be32(x)[3]) == x,
{
    assert((x / 0x100_0000) * 0x100_0000 + ((x / 0x1_0000) % 0x100) * 0x1_0000 + ((x / 0x100)
        % 0x100) * 0x100 + x % 0x100 == x) by (nonlinear_arith);
}

pub proof fn lemma_be16_roundtrip(x: u16)
    ensures
        from_be16(be16(x)[0], be16(x)[1]) == x,
{
    assert((x / 0x100) * 0x100 + x % 0x100 == x) by (nonlinear_arith);
}

// ---------------------------------------------------------------------
// Record encoding.
// ---------------------------------------------------------------------

pub open spec fn cmd_tag(c: Command) -> u8 {
    match c {
        Command::Null => 0,
        Command::Flat(_) => 1,
        Command::FlatStack(_) => 2,
        Command::PulseLinear(_) => 3,
        Command::PulseQuadratic(_) => 4,
    }
}

pub open spec fn cmd_payload(c: Command) -> u8 {
    match c {
        Command::Null => 0,
        Command::Flat(v) => v,
        Command::FlatStack(v) => v,
        Command::PulseLinear(v) => v,
        Command::PulseQuadratic(v) => v,
    }
}

/// The command a record with kind `k` and intensity byte `p` stands for.
pub open spec fn make_cmd(k: u8, p: u8) -> Command
    recommends
        k <= 4,
{
    if k == 0 {
        Command::Null
    } else if k == 1 {
        Command::Flat(p)
    } else if k == 2 {
        Command::FlatStack(p)
    } else if k == 3 {
        Command::PulseLinear(p)
    } else {
        Command::PulseQuadratic(p)
    }
}

pub proof fn lemma_cmd_roundtrip(c: Command)
    ensures
        make_cmd(cmd_tag(c), cmd_payload(c)) == c,
{
}

/// Whether the wrapped distance of `t` from baseline `b` fits a signed
/// 16-bit delta.
pub open spec fn delta_fits(t: u32, b: u32) -> bool {
    wrap_diff(t, b) < 0x8000 || wrap_diff(t, b) >= 0xFFFF_8000
}

/// A record carries a full 32-bit timestamp when there is no baseline or
/// the delta would not fit.
pub open spec fn uses_full_time(t: u32, base: Option<u32>) -> bool {
    match base {
        Option::None => true,
        Option::Some(b) => !delta_fits(t, b),
    }
}

/// Sign extension of a 16-bit delta onto the 32-bit wrapping clock.
pub open spec fn sext16(v: u16) -> u32 {
    if v < 0x8000 {
        v as u32
    } else {
        (v + 0xFFFF_0000) as u32
    }
}

pub open spec fn time_enc(t: u32, base: Option<u32>) -> Seq<u8> {
    if uses_full_time(t, base) {
        be32(t)
    } else {
        be16((wrap_diff(t, base->Some_0) % 0x1_0000) as u16)
    }
}

pub open spec fn tag_byte(m: LedMsg, base: Option<u32>) -> u8 {
    if uses_full_time(m.cur_time, base) {
        (cmd_tag(m.cmd) + 8) as u8
    } else {
        cmd_tag(m.cmd)
    }
}

/// The wire bytes of one record.
pub open spec fn rec_enc(m: LedMsg, base: Option<u32>) -> Seq<u8> {
    seq![tag_byte(m, base), m.element, cmd_payload(m.cmd)] + time_enc(m.cur_time, base)
}

/// The wire length of one record: 7 bytes with a full timestamp, 5 with a
/// delta.
pub open spec fn rec_len(m: LedMsg, base: Option<u32>) -> nat {
    if uses_full_time(m.cur_time, base) {
        7
    } else {
        5
    }
}

pub proof fn lemma_rec_enc_len(m: LedMsg, base: Option<u32>)
    ensures
        rec_enc(m, base).len() == rec_len(m, base),
{
}

/// The concatenated records of a batch.
pub open spec fn recs_enc(s: Seq<LedMsg>, base: Option<u32>) -> Seq<u8>
    decreases s.len(),
{
    if s.len() == 0 {
        Seq::empty()
    } else {
        rec_enc(s[0], base) + recs_enc(s.drop_first(), base)
    }
}

/// The packet header: a mode byte, plus the baseline when there is one.
pub open spec fn header_enc(base: Option<u32>) -> Seq<u8> {
    match base {
        Option::None => seq![0u8],
        Option::Some(b) => seq![1u8] + be32(b),
    }
}

/// A whole packet: header plus records.
pub open spec fn wire_enc(s: Seq<LedMsg>, base: Option<u32>) -> Seq<u8> {
    header_enc(base) + recs_enc(s, base)
}

pub proof fn lemma_recs_enc_push(s: Seq<LedMsg>, m: LedMsg, base: Option<u32>)
    ensures
        recs_enc(s.push(m), base) == recs_enc(s, base) + rec_enc(m, base),
    decreases s.len(),
{
    if s.len() == 0 {
        let sp = s.push(m);
        assert(sp[0] == m);
        assert(sp.drop_first() =~= Seq::<LedMsg>::empty());
        assert(recs_enc(Seq::<LedMsg>::empty(), base) =~= Seq::<u8>::empty());
        assert(recs_enc(sp, base) == rec_enc(m, base) + recs_enc(sp.drop_first(), base));
        assert(recs_enc(sp, base) =~= rec_enc(m, base));
        assert(recs_enc(s, base) + rec_enc(m, base) =~= rec_enc(m, base));
    } else {
        assert(s.push(m).drop_first() =~= s.drop_first().push(m));
        assert(s.push(m)[0] == s[0]);
        lemma_recs_enc_push(s.drop_first(), m, base);
        assert(recs_enc(s.push(m), base) =~= recs_enc(s, base) + rec_enc(m, base));
    }
}

// ---------------------------------------------------------------------
// Parsing, at the spec level.
// ---------------------------------------------------------------------

/// Parse one record from the front of `bytes`: the message and how many
/// bytes it took.
pub open spec fn parse_rec(bytes: Seq<u8>, base: Option<u32>) -> Result<(LedMsg, nat), CodecError> {
    if bytes.len() < 1 {
        Result::Err(CodecError::Truncated)
    } else {
        let tag = bytes[0];
        let full = tag >= 8;
        let k = if full {
            (tag - 8) as u8
        } else {
            tag
        };
        if tag >= 16 || k > 4 {
            Result::Err(CodecError::UnknownTag)
        } else if !full && base is None {
            Result::Err(CodecError::BadHeader)
        } else if full {
            if bytes.len() < 7 {
                Result::Err(CodecError::Truncated)
            } else {
                Result::Ok(
                    (
                        LedMsg {
                            element: bytes[1],
                            cmd: make_cmd(k, bytes[2]),
                            cur_time: from_be32(bytes[3], bytes[4], bytes[5], bytes[6]),
                        },
                        7 as nat,
                    ),
                )
            }
        } else {
            if bytes.len() < 5 {
                Result::Err(CodecError::Truncated)
            } else {
                Result::Ok(
                    (
                        LedMsg {
                            element: bytes[1],
                            cmd: make_cmd(k, bytes[2]),
                            cur_time: wrap_add32(base->Some_0, sext16(from_be16(bytes[3], bytes[4]))),
                        },
                        5 as nat,
                    ),
                )
            }
        }
    }
}

/// Parse a run of records until the bytes are exhausted.
pub open spec fn parse_recs(bytes: Seq<u8>, base: Option<u32>) -> Result<Seq<LedMsg>, CodecError>
    decreases bytes.len(),
{
    if bytes.len() == 0 {
        Result::Ok(Seq::empty())
    } else {
        match parse_rec(bytes, base) {
            Result::Err(e) => Result::Err(e),
            Result::Ok((m, n)) => if 0 < n <= bytes.len() {
                match parse_recs(bytes.skip(n as int), base) {
                    Result::Err(e) => Result::Err(e),
                    Result::Ok(rest) => Result::Ok(seq![m] + rest),
                }
            } else {
                Result::Err(CodecError::Truncated)
            },
        }
    }
}

/// Parse a whole packet: header, then records. An empty packet is an
/// empty batch.
pub open spec fn parse(bytes: Seq<u8>) -> Result<Seq<LedMsg>, CodecError> {
    if bytes.len() == 0 {
        Result::Ok(Seq::empty())
    } else if bytes[0] == 0 {
        parse_recs(bytes.skip(1), Option::None)
    } else if bytes[0] == 1 {
        if bytes.len() < 5 {
            Result::Err(CodecError::Truncated)
        } else {
            parse_recs(bytes.skip(5), Option::Some(from_be32(bytes[1], bytes[2], bytes[3], bytes[4])))
        }
    } else {
        Result::Err(CodecError::BadHeader)
    }
}

// ---------------------------------------------------------------------
// Round trip: parsing undoes encoding.
// ---------------------------------------------------------------------

/// Parsing one encoded record off the front of any byte string yields the
/// record back and consumes exactly its length.
pub proof fn lemma_parse_rec_enc(m: LedMsg, rest: Seq<u8>, base: Option<u32>)
    ensures
        parse_rec(rec_enc(m, base) + rest, base) == Result::<(LedMsg, nat), CodecError>::Ok(
            (m, rec_len(m, base)),
        ),
{
    let bytes = rec_enc(m, base) + rest;
    assert(bytes[0] == tag_byte(m, base));
    assert(bytes[1] == m.element);
    assert(bytes[2] == cmd_payload(m.cmd));
    assert(cmd_tag(m.cmd) <= 4);
    lemma_cmd_roundtrip(m.cmd);
    if uses_full_time(m.cur_time, base) {
        assert(bytes[3] == be32(m.cur_time)[0]);
        assert(bytes[4] == be32(m.cur_time)[1]);
        assert(bytes[5] == be32(m.cur_time)[2]);
        assert(bytes[6] == be32(m.cur_time)[3]);
        lemma_be32_roundtrip(m.cur_time);
    } else {
        let b = base->Some_0;
        let d = wrap_diff(m.cur_time, b);
        let v = (d % 0x1_0000) as u16;
        assert(bytes[3] == be16(v)[0]);
        assert(bytes[4] == be16(v)[1]);
        lemma_be16_roundtrip(v);
        assert(sext16(v) == d) by {
            if d < 0x8000 {
                assert(d % 0x1_0000 == d);
            } else {
                assert(0xFFFF_8000 <= d <= 0xFFFF_FFFF);
                assert(d % 0x1_0000 == d - 0xFFFF_0000) by (nonlinear_arith)
                    requires 0xFFFF_8000 <= d <= 0xFFFF_FFFFu32;
            }
        }
        lemma_wrap_cancel(m.cur_time, b);
    }
}

/// Parsing the concatenated records of a batch yields the batch back.
pub proof fn lemma_parse_recs_enc(s: Seq<LedMsg>, base: Option<u32>)
    ensures
        parse_recs(recs_enc(s, base), base) == Result::<Seq<LedMsg>, CodecError>::Ok(s),
    decreases s.len(),
{
    if s.len() == 0 {
        assert(recs_enc(s, base) =~= Seq::<u8>::empty());
        assert(Seq::empty() =~= s);
    } else {
        let m = s[0];
        let tail = s.drop_first();
        let bytes = recs_enc(s, base);
        let n = rec_len(m, base);
        lemma_parse_rec_enc(m, recs_enc(tail, base), base);
        assert(bytes == rec_enc(m, base) + recs_enc(tail, base));
        assert(bytes.len() >= n);
        assert(bytes.skip(n as int) =~= recs_enc(tail, base));
        lemma_parse_recs_enc(tail, base);
        assert(seq![m] + tail =~= s);
    }
}

/// The round-trip law: decoding an encoded batch restores every element,
/// command and timestamp exactly, whatever the baseline choice.
pub proof fn lemma_round_trip(s: Seq<LedMsg>, base: Option<u32>)
    ensures
        parse(wire_enc(s, base)) == Result::<Seq<LedMsg>, CodecError>::Ok(s),
{
    let bytes = wire_enc(s, base);
    lemma_parse_recs_enc(s, base);
    match base {
        Option::None => {
            assert(bytes[0] == 0);
            assert(bytes.skip(1) =~= recs_enc(s, base));
        },
        Option::Some(b) => {
            assert(bytes[0] == 1);
            assert(bytes[1] == be32(b)[0]);
            assert(bytes[2] == be32(b)[1]);
            assert(bytes[3] == be32(b)[2]);
            assert(bytes[4] == be32(b)[3]);
            lemma_be32_roundtrip(b);
            assert(bytes.skip(5) =~= recs_enc(s, base));
        },
    }
}

// ---------------------------------------------------------------------
// Executable encoding.
// ---------------------------------------------------------------------

fn cmd_tag_ex(c: &Command) -> (t: u8)
    ensures
        t == cmd_tag(*c),
{
    match c {
        Command::Null => 0,
        Command::Flat(_) => 1,
        Command::FlatStack(_) => 2,
        Command::PulseLinear(_) => 3,
        Command::PulseQuadratic(_) => 4,
    }
}

fn cmd_payload_ex(c: &Command) -> (p: u8)
    ensures
        p == cmd_payload(*c),
{
    match c {
        Command::Null => 0,
        Command::Flat(v) => *v,
        Command::FlatStack(v) => *v,
        Command::PulseLinear(v) => *v,
        Command::PulseQuadratic(v) => *v,
    }
}

fn push_be32(out: &mut Vec<u8>, x: u32)
    ensures
        final(out)@ == old(out)@ + be32(x),
{
    out.push((x / 0x100_0000) as u8);
    out.push(((x / 0x1_0000) % 0x100) as u8);
    out.push(((x / 0x100) % 0x100) as u8);
    out.push((x % 0x100) as u8);
    assert(final(out)@ =~= old(out)@ + be32(x));
}

fn push_be16(out: &mut Vec<u8>, x: u16)
    ensures
        final(out)@ == old(out)@ + be16(x),
{
    out.push((x / 0x100) as u8);
    out.push((x % 0x100) as u8);
    assert(final(out)@ =~= old(out)@ + be16(x));
}

fn uses_full_time_ex(t: u32, base: Option<u32>) -> (r: bool)
    ensures
        r == uses_full_time(t, base),
{
    match base {
        Option::None => true,
        Option::Some(b) => {
            let d = t.wrapping_sub(b);
            assert(d == wrap_diff(t, b));
            !(d < 0x8000 || d >= 0xFFFF_8000)
        },
    }
}

/// The number of wire bytes one message will take under the given
/// baseline.
pub fn rec_wire_len(m: &LedMsg, base: Option<u32>) -> (n: usize)
    ensures
        n == rec_len(*m, base),
{
    if uses_full_time_ex(m.cur_time, base) {
        7
    } else {
        5
    }
}

fn push_rec(out: &mut Vec<u8>, m: &LedMsg, base: Option<u32>)
    ensures
        final(out)@ == old(out)@ + rec_enc(*m, base),
{
    let full = uses_full_time_ex(m.cur_time, base);
    let k = cmd_tag_ex(&m.cmd);
    let tag = if full {
        k + 8
    } else {
        k
    };
    out.push(tag);
    out.push(m.element);
    out.push(cmd_payload_ex(&m.cmd));
    if full {
        push_be32(out, m.cur_time);
    } else {
        match base {
            Option::Some(b) => {
                let d = m.cur_time.wrapping_sub(b);
                assert(d == wrap_diff(m.cur_time, b));
                let v = (d % 0x1_0000) as u16;
                push_be16(out, v);
            },
            Option::None => {
                // unreachable: without a baseline every record is full
                assert(false);
            },
        }
    }
    assert(final(out)@ =~= old(out)@ + rec_enc(*m, base));
}

/// `recs_enc` over one more message appends that message's record.
pub proof fn lemma_recs_enc_take_one_more(s: Seq<LedMsg>, i: int, base: Option<u32>)
    requires
        0 <= i < s.len(),
    ensures
        recs_enc(s.take(i + 1), base) == recs_enc(s.take(i), base) + rec_enc(s[i], base),
{
    assert(s.take(i + 1) =~= s.take(i).push(s[i]));
    lemma_recs_enc_push(s.take(i), s[i], base);
}

/// A run of records never takes more than 7 bytes per record.
pub proof fn lemma_recs_len_bound(s: Seq<LedMsg>, base: Option<u32>)
    ensures
        recs_enc(s, base).len() <= 7 * s.len(),
    decreases s.len(),
{
    if s.len() > 0 {
        lemma_recs_len_bound(s.drop_first(), base);
    }
}

/// A packet never takes more than 5 header bytes plus 7 bytes per
/// record.
pub proof fn lemma_wire_len_bound(s: Seq<LedMsg>, base: Option<u32>)
    ensures
        wire_enc(s, base).len() <= 5 + 7 * s.len(),
{
    lemma_recs_len_bound(s, base);
}

/// Greedily pack the longest prefix of `msgs[start..]` whose packet fits
/// `capacity` bytes. Returns the packet and how many messages it
/// consumed; when not even the first message fits, returns an empty
/// packet and zero.
pub fn serialize_from(msgs: &[LedMsg], start: usize, capacity: usize, baseline: Option<u32>) -> (r:
    (Vec<u8>, usize))
    requires
        start <= msgs@.len(),
    ensures
        r.1 <= msgs@.len() - start,
        r.1 > 0 ==> r.0@ == wire_enc(msgs@.skip(start as int).take(r.1 as int), baseline),
        r.1 == 0 ==> r.0@.len() == 0,
        r.0@.len() <= capacity,
        start + r.1 < msgs@.len() ==> wire_enc(
            msgs@.skip(start as int).take(r.1 + 1),
            baseline,
        ).len() > capacity,
{
    let ghost tail = msgs@.skip(start as int);
    let mut out: Vec<u8> = Vec::new();
    match baseline {
        Option::None => out.push(0u8),
        Option::Some(b) => {
            out.push(1u8);
            push_be32(&mut out, b);
        },
    }
    assert(out@ =~= header_enc(baseline));
    let mut i: usize = 0;
    let mut stopped = false;
    while i < msgs.len() - start && !stopped
        invariant
            start <= msgs@.len(),
            tail == msgs@.skip(start as int),
            i <= msgs@.len() - start,
            i == 0 ==> out@ == header_enc(baseline),
            i > 0 ==> out@ == wire_enc(tail.take(i as int), baseline),
            i > 0 ==> out@.len() <= capacity,
            stopped ==> i < msgs@.len() - start && wire_enc(tail.take(i + 1), baseline).len()
                > capacity,
        decreases msgs@.len() - start - i + (if stopped { 0int } else { 1int }),
    {
        let m = &msgs[start + i];
        assert(*m == tail[i as int]);
        let n = rec_wire_len(m, baseline);
        proof {
            lemma_recs_enc_take_one_more(tail, i as int, baseline);
        }
        if out.len() > capacity || n > capacity - out.len() {
            stopped = true;
        } else {
            push_rec(&mut out, m, baseline);
            i = i + 1;
            assert(out@ =~= wire_enc(tail.take(i as int), baseline));
        }
    }
    if i == 0 {
        proof {
            if msgs@.len() - start > 0 && !stopped {
                // the loop guard failed with i == 0, so the slice was empty
                assert(false);
            }
        }
        (Vec::new(), 0)
    } else {
        (out, i)
    }
}

/// Greedy MTU packing of a whole batch, from its start.
pub fn serialize(msgs: &[LedMsg], capacity: usize, baseline: Option<u32>) -> (r: (Vec<u8>, usize))
    ensures
        r.1 <= msgs@.len(),
        r.1 > 0 ==> r.0@ == wire_enc(msgs@.take(r.1 as int), baseline),
        r.1 == 0 ==> r.0@.len() == 0,
        r.0@.len() <= capacity,
        r.1 < msgs@.len() ==> wire_enc(msgs@.take(r.1 + 1), baseline).len() > capacity,
{
    let r = serialize_from(msgs, 0, capacity, baseline);
    assert(msgs@.skip(0) =~= msgs@);
    r
}

// ---------------------------------------------------------------------
// Executable decoding.
// ---------------------------------------------------------------------

fn read_be32(bytes: &[u8], pos: usize) -> (x: u32)
    requires
        pos + 4 <= bytes@.len(),
    ensures
        x == from_be32(bytes@[pos as int], bytes@[pos + 1], bytes@[pos + 2], bytes@[pos + 3]),
{
    let b0 = bytes[pos] as u32;
    let b1 = bytes[pos + 1] as u32;
    let b2 = bytes[pos + 2] as u32;
    let b3 = bytes[pos + 3] as u32;
    b0 * 0x100_0000 + b1 * 0x1_0000 + b2 * 0x100 + b3
}

fn read_be16(bytes: &[u8], pos: usize) -> (x: u16)
    requires
        pos + 2 <= bytes@.len(),
    ensures
        x == from_be16(bytes@[pos as int], bytes@[pos + 1]),
{
    let b0 = bytes[pos] as u16;
    let b1 = bytes[pos + 1] as u16;
    b0 * 0x100 + b1
}

fn sext16_ex(v: u16) -> (r: u32)
    ensures
        r == sext16(v),
{
    if v < 0x8000 {
        v as u32
    } else {
        v as u32 + 0xFFFF_0000
    }
}

/// Parse one record at `pos`, exactly as the spec parser does on the
/// remaining bytes.
fn parse_rec_ex(bytes: &[u8], pos: usize, base: Option<u32>) -> (r: Result<
    (LedMsg, usize),
    CodecError,
>)
    requires
        pos < bytes@.len(),
    ensures
        match r {
            Result::Ok((m, n)) => {
                &&& parse_rec(bytes@.skip(pos as int), base) == Result::<
                    (LedMsg, nat),
                    CodecError,
                >::Ok((m, n as nat))
                &&& 0 < n <= bytes@.len() - pos
            },
            Result::Err(e) => parse_rec(bytes@.skip(pos as int), base) == Result::<
                (LedMsg, nat),
                CodecError,
            >::Err(e),
        },
{
    let ghost rest = bytes@.skip(pos as int);
    assert(rest[0] == bytes@[pos as int]);
    let tag = bytes[pos];
    let full = tag >= 8;
    let k = if full {
        tag - 8
    } else {
        tag
    };
    if tag >= 16 || k > 4 {
        return Result::Err(CodecError::UnknownTag);
    }
    if !full && base.is_none() {
        return Result::Err(CodecError::BadHeader);
    }
    if full {
        if bytes.len() - pos < 7 {
            return Result::Err(CodecError::Truncated);
        }
        let element = bytes[pos + 1];
        let payload = bytes[pos + 2];
        let t = read_be32(bytes, pos + 3);
        assert(rest[1] == bytes@[pos + 1] && rest[2] == bytes@[pos + 2] && rest[3] == bytes@[pos
            + 3] && rest[4] == bytes@[pos + 4] && rest[5] == bytes@[pos + 5] && rest[6] == bytes@[
            pos + 6]);
        let cmd = make_cmd_ex(k, payload);
        Result::Ok((LedMsg { element, cmd, cur_time: t }, 7))
    } else {
        if bytes.len() - pos < 5 {
            return Result::Err(CodecError::Truncated);
        }
        let element = bytes[pos + 1];
        let payload = bytes[pos + 2];
        let v = read_be16(bytes, pos + 3);
        assert(rest[1] == bytes@[pos + 1] && rest[2] == bytes@[pos + 2] && rest[3] == bytes@[pos
            + 3] && rest[4] == bytes@[pos + 4]);
        let cmd = make_cmd_ex(k, payload);
        match base {
            Option::Some(b) => {
                let t = b.wrapping_add(sext16_ex(v));
                assert(t == wrap_add32(b, sext16(v)));
                Result::Ok((LedMsg { element, cmd, cur_time: t }, 5))
            },
            Option::None => {
                assert(false);
                Result::Err(CodecError::BadHeader)
            },
        }
    }
}

fn make_cmd_ex(k: u8, p: u8) -> (c: Command)
    requires
        k <= 4,
    ensures
        c == make_cmd(k, p),
{
    if k == 0 {
        Command::Null
    } else if k == 1 {
        Command::Flat(p)
    } else if k == 2 {
        Command::FlatStack(p)
    } else if k == 3 {
        Command::PulseLinear(p)
    } else {
        Command::PulseQuadratic(p)
    }
}

/// Decode a whole packet. Succeeds exactly on the byte strings the spec
/// parser accepts, and then returns exactly the batch it denotes.
pub fn deserialize(bytes: &[u8]) -> (r: Result<Vec<LedMsg>, CodecError>)
    ensures
        match r {
            Result::Ok(v) => parse(bytes@) == Result::<Seq<LedMsg>, CodecError>::Ok(v@),
            Result::Err(e) => parse(bytes@) == Result::<Seq<LedMsg>, CodecError>::Err(e),
        },
{
    let mut acc: Vec<LedMsg> = Vec::new();
    if bytes.len() == 0 {
        return Result::Ok(acc);
    }
    let mode = bytes[0];
    let (base, mut pos): (Option<u32>, usize) = if mode == 0 {
        (Option::None, 1)
    } else if mode == 1 {
        if bytes.len() < 5 {
            return Result::Err(CodecError::Truncated);
        }
        (Option::Some(read_be32(bytes, 1)), 5)
    } else {
        return Result::Err(CodecError::BadHeader);
    };
    assert(parse(bytes@) == parse_recs(bytes@.skip(pos as int), base));
    while pos < bytes.len()
        invariant
            pos <= bytes@.len(),
            parse(bytes@) == (match parse_recs(bytes@.skip(pos as int), base) {
                Result::Ok(rest) => Result::<Seq<LedMsg>, CodecError>::Ok(acc@ + rest),
                Result::Err(e) => Result::<Seq<LedMsg>, CodecError>::Err(e),
            }),
        decreases bytes@.len() - pos,
    {
        match parse_rec_ex(bytes, pos, base) {
            Result::Ok((m, n)) => {
                proof {
                    assert(bytes@.skip(pos as int).skip(n as int) =~= bytes@.skip(pos + n));
                    assert(forall|rest: Seq<LedMsg>|
                        acc@ + (seq![m] + rest) =~= (acc@ + seq![m]) + rest);
                    assert(acc@.push(m) =~= acc@ + seq![m]);
                }
                acc.push(m);
                pos = pos + n;
            },
            Result::Err(e) => {
                return Result::Err(e);
            },
        }
    }
    assert(bytes@.skip(pos as int) =~= Seq::<u8>::empty());
    assert(acc@ + Seq::<LedMsg>::empty() =~= acc@);
    Result::Ok(acc)
}

// ---------------------------------------------------------------------
// MTU chunking.
// ---------------------------------------------------------------------

/// The batch a run of packets denotes: the concatenation of their
/// decodings.
pub open spec fn chunks_msgs(chunks: Seq<Seq<u8>>) -> Seq<LedMsg>
    decreases chunks.len(),
{
    if chunks.len() == 0 {
        Seq::empty()
    } else {
        (match parse(chunks[0]) {
            Result::Ok(s) => s,
            Result::Err(_) => Seq::empty(),
        }) + chunks_msgs(chunks.drop_first())
    }
}

pub proof fn lemma_chunks_msgs_push(chunks: Seq<Seq<u8>>, c: Seq<u8>)
    requires
        parse(c) is Ok,
    ensures
        chunks_msgs(chunks.push(c)) == chunks_msgs(chunks) + parse(c)->Ok_0,
    decreases chunks.len(),
{
    if chunks.len() == 0 {
        let cp = chunks.push(c);
        assert(cp[0] == c);
        assert(cp.drop_first() =~= Seq::<Seq<u8>>::empty());
        assert(chunks_msgs(Seq::<Seq<u8>>::empty()) =~= Seq::<LedMsg>::empty());
        assert(chunks_msgs(cp) == parse(c)->Ok_0 + chunks_msgs(cp.drop_first()));
        assert(chunks_msgs(cp) =~= parse(c)->Ok_0);
        assert(chunks_msgs(chunks) + parse(c)->Ok_0 =~= parse(c)->Ok_0);
    } else {
        let cp = chunks.push(c);
        assert(cp[0] == chunks[0]);
        assert(cp.drop_first() =~= chunks.drop_first().push(c));
        lemma_chunks_msgs_push(chunks.drop_first(), c);
        assert(chunks_msgs(cp) =~= chunks_msgs(chunks) + parse(c)->Ok_0);
    }
}

/// Chunking completeness: split a batch into MTU-sized packets until it
/// is exhausted. Every packet fits the capacity and decodes, the decoded
/// packets concatenate back to exactly the whole batch in order, and the
/// consumed counts sum to the batch's length.
#[verifier::rlimit(50)]
pub fn chunk_messages(msgs: &[LedMsg], capacity: usize, baseline: Option<u32>) -> (chunks: Vec<
    Vec<u8>,
>)
    requires
        capacity >= 12,
    ensures
        forall|j: int| 0 <= j < chunks@.len() ==> parse(chunks@[j]@) is Ok,
        forall|j: int| 0 <= j < chunks@.len() ==> chunks@[j]@.len() <= capacity,
        chunks_msgs(chunks@.map_values(|c: Vec<u8>| c@)) == msgs@,
        msgs@.len() > 0 ==> chunks@.len() > 0,
{
    let mut chunks: Vec<Vec<u8>> = Vec::new();
    let mut written: usize = 0;
    while written < msgs.len()
        invariant
            written <= msgs@.len(),
            capacity >= 12,
            forall|j: int| 0 <= j < chunks@.len() ==> parse(chunks@[j]@) is Ok,
            forall|j: int| 0 <= j < chunks@.len() ==> chunks@[j]@.len() <= capacity,
            chunks_msgs(chunks@.map_values(|c: Vec<u8>| c@)) == msgs@.take(written as int),
            msgs@.len() > 0 && written > 0 ==> chunks@.len() > 0,
        decreases msgs@.len() - written,
    {
        let (packet, consumed) = serialize_from(msgs, written, capacity, baseline);
        proof {
            let tail = msgs@.skip(written as int);
            if consumed == 0 {
                // the first unconsumed record would have to overflow the
                // capacity, but header and record never exceed 12 bytes
                assert(wire_enc(tail.take(1), baseline).len() > capacity);
                lemma_recs_enc_take_one_more(tail, 0, baseline);
                assert(recs_enc(tail.take(0), baseline) =~= Seq::<u8>::empty());
                assert(recs_enc(tail.take(1), baseline) =~= rec_enc(tail[0], baseline));
                lemma_rec_enc_len(tail[0], baseline);
                assert(wire_enc(tail.take(1), baseline).len() <= 12);
                assert(false);
            }
            lemma_round_trip(tail.take(consumed as int), baseline);
            lemma_chunks_msgs_push(chunks@.map_values(|c: Vec<u8>| c@), packet@);
            assert(chunks@.push(packet).map_values(|c: Vec<u8>| c@) =~= chunks@.map_values(
                |c: Vec<u8>| c@,
            ).push(packet@));
            assert(msgs@.take(written + consumed) =~= msgs@.take(written as int) + tail.take(
                consumed as int,
            ));
        }
        chunks.push(packet);
        written = written + consumed;
    }
    assert(msgs@.take(written as int) =~= msgs@);
    chunks
}

} // verus!
