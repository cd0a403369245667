use vstd::prelude::*;

verus! {

/// The largest output that a checked stream may announce.
pub const MAX_LIMIT: usize = 1048576;

/// What one step of the walk over an LZO1X stream does: the stream is refused,
/// it ends, or the walk goes on at a new input position with a new output length
/// and state.
pub enum LzoStep {
    Fail,
    End,
    Next(int, int, int),
}

/// The number of zero bytes from `p` on.
pub open spec fn zero_run(d: Seq<u8>, p: int) -> int
    decreases d.len() - p,
{
    if p < 0 || p >= d.len() || d[p] != 0 {
        0
    } else {
        1 + zero_run(d, p + 1)
    }
}

/// A length field at `p`: `base`, or, where `base` is `short`, `base` plus 255
/// for each zero byte, plus `bias`, plus the byte after the zeros. Gives the
/// length and the position after it.
pub open spec fn ext_len(d: Seq<u8>, p: int, base: int, short: int, bias: int) -> Option<(int, int)> {
    if base != short {
        Some((base, p))
    } else {
        let z = zero_run(d, p);
        if p + z >= d.len() {
            None
        } else {
            Some((base + z * 255 + bias + d[p + z], p + z + 1))
        }
    }
}

/// A copy of `lblen` bytes from `dist` bytes back, then `ns` literals from `q`:
/// refused where the copy would reach before the start of the output, the
/// output would pass `limit`, or the literals run past the input.
pub open spec fn copy_step(d: Seq<u8>, q: int, out: int, dist: int, lblen: int, ns: int, limit: int) -> LzoStep {
    if dist < 1 || dist > out || out + lblen + ns > limit || q + ns > d.len() {
        LzoStep::Fail
    } else {
        LzoStep::Next(q + ns, out + lblen + ns, ns)
    }
}

/// The little-endian 16-bit value at `q`.
pub open spec fn le16(d: Seq<u8>, q: int) -> int {
    d[q] + d[q + 1] * 256
}

/// One instruction of the stream at `p`, with `out` bytes of output so far and
/// the literal state `state`, as lzokay-native's decoder reads it.
pub open spec fn lzo_step(d: Seq<u8>, p: int, out: int, state: int, limit: int) -> LzoStep {
    if p < 0 || p >= d.len() {
        LzoStep::Fail
    } else {
        let inst = d[p] as int;
        let after = p + 1;
        if inst >= 64 {
            if after >= d.len() {
                LzoStep::Fail
            } else {
                copy_step(d, after + 1, out, d[after] * 8 + (inst / 4) % 8 + 1, inst / 32 + 1, inst % 4, limit)
            }
        } else if inst >= 32 {
            match ext_len(d, after, inst % 32 + 2, 2, 31) {
                None => LzoStep::Fail,
                Some((l, q)) => if q + 2 > d.len() {
                    LzoStep::Fail
                } else {
                    copy_step(d, q + 2, out, le16(d, q) / 4 + 1, l, le16(d, q) % 4, limit)
                },
            }
        } else if inst >= 16 {
            match ext_len(d, after, inst % 8 + 2, 2, 7) {
                None => LzoStep::Fail,
                Some((l, q)) => if q + 2 > d.len() {
                    LzoStep::Fail
                } else {
                    let d4 = ((inst / 8) % 2) * 16384 + le16(d, q) / 4;
                    if d4 == 0 {
                        LzoStep::End
                    } else {
                        copy_step(d, q + 2, out, d4 + 16384, l, le16(d, q) % 4, limit)
                    }
                },
            }
        } else if state == 0 {
            match ext_len(d, after, inst + 3, 3, 15) {
                None => LzoStep::Fail,
                Some((l, q)) => if q + l > d.len() || out + l > limit {
                    LzoStep::Fail
                } else {
                    LzoStep::Next(q + l, out + l, 4)
                },
            }
        } else if after >= d.len() {
            LzoStep::Fail
        } else if state != 4 {
            copy_step(d, after + 1, out, inst / 4 + d[after] * 4 + 1, 2, inst % 4, limit)
        } else {
            copy_step(d, after + 1, out, inst / 4 + d[after] * 4 + 2049, 3, inst % 4, limit)
        }
    }
}

/// The first byte of a stream: a literal run of `b - 17` bytes for `b` of 22 or
/// more, `b - 17` literals setting the state for 18 to 21, else nothing.
pub open spec fn lzo_start(d: Seq<u8>, limit: int) -> LzoStep {
    if d.len() == 0 {
        LzoStep::Fail
    } else if d[0] >= 18 {
        let l = d[0] - 17;
        if 1 + l > d.len() || l > limit {
            LzoStep::Fail
        } else if d[0] >= 22 {
            LzoStep::Next(1 + l, l, 4)
        } else {
            LzoStep::Next(1 + l, l, l)
        }
    } else {
        LzoStep::Next(0, 0, 0)
    }
}

/// The walk from position `p` reaches the end marker without being refused.
pub open spec fn lzo_walk(d: Seq<u8>, p: int, out: int, state: int, limit: int) -> bool
    decreases d.len() - p,
{
    match lzo_step(d, p, out, state, limit) {
        LzoStep::Fail => false,
        LzoStep::End => true,
        LzoStep::Next(next_pos, next_out, next_state) => if p < next_pos <= d.len() {
            lzo_walk(d, next_pos, next_out, next_state, limit)
        } else {
            false
        },
    }
}

/// The stream `d` decodes, as lzokay-native's decoder walks it, with every read
/// inside `d`, every back-reference inside the output so far, and at most `limit`
/// bytes of output.
pub open spec fn lzo_stream_ok(d: Seq<u8>, limit: int) -> bool {
    match lzo_start(d, limit) {
        LzoStep::Next(p, o, s) => lzo_walk(d, p, o, s, limit),
        _ => false,
    }
}

fn zero_run_exec(d: &[u8], p: usize) -> (r: usize)
    requires
        p <= d@.len(),
    ensures
        r == zero_run(d@, p as int),
        p + r <= d@.len(),
{
    let len = d.len();
    let mut q = p;
    while q < len && d[q] == 0
        invariant
            p <= q <= len,
            len == d@.len(),
            zero_run(d@, p as int) == (q - p) + zero_run(d@, q as int),
        decreases len - q,
    {
        q = q + 1;
    }
    q - p
}

/// `ext_len`, refused as too long where the zero run alone passes `limit`.
fn ext_len_exec(d: &[u8], p: usize, base: usize, short: usize, bias: usize, limit: usize) -> (r: (
    u8,
    usize,
    usize,
))
    requires
        p <= d@.len(),
        base <= 64,
        bias <= 31,
        limit <= MAX_LIMIT,
    ensures
        r.0 == 0 ==> ext_len(d@, p as int, base as int, short as int, bias as int) is None,
        r.0 == 1 ==> (ext_len(d@, p as int, base as int, short as int, bias as int) matches Some(
            (l, q),
        ) && l > limit && q == r.2 && r.2 <= d@.len()),
        r.0 == 2 ==> (ext_len(d@, p as int, base as int, short as int, bias as int) == Some(
            (r.1 as int, r.2 as int),
        ) && r.2 <= d@.len() && r.1 <= 256 * MAX_LIMIT + 400),
        r.0 <= 2,
{
    if base != short {
        return (2, base, p);
    }
    let len = d.len();
    let z = zero_run_exec(d, p);
    if z >= len - p {
        return (0, 0, 0);
    }
    if z > limit {
        assert(base + z * 255 + bias + d@[p + z] > limit) by (nonlinear_arith)
            requires
                z > limit,
                z >= 0,
                base >= 0,
                bias >= 0,
        ;
        return (1, 0, p + z + 1);
    }
    assert(z * 255 <= 255 * MAX_LIMIT) by (nonlinear_arith)
        requires
            z <= limit,
            limit <= MAX_LIMIT,
    ;
    (2, base + z * 255 + bias + d[p + z] as usize, p + z + 1)
}

fn le16_exec(d: &[u8], q: usize) -> (r: usize)
    requires
        q + 2 <= d@.len(),
    ensures
        r == le16(d@, q as int),
{
    d[q] as usize + d[q + 1] as usize * 256
}

fn copy_exec(d: &[u8], q: usize, out: usize, dist: usize, lblen: usize, ns: usize, limit: usize) -> (r: (
    u8,
    usize,
    usize,
    usize,
))
    requires
        q <= d@.len(),
        out <= limit <= MAX_LIMIT,
        lblen <= 256 * MAX_LIMIT + 400,
        ns <= 4,
    ensures
        step_matches(copy_step(d@, q as int, out as int, dist as int, lblen as int, ns as int, limit as int), r),
        r.0 == 2 ==> r.1 <= d@.len() && r.2 <= limit && r.3 <= 4,
{
    if dist < 1 || dist > out || lblen + ns > limit - out || ns > d.len() - q {
        (0, 0, 0, 0)
    } else {
        (2, q + ns, out + lblen + ns, ns)
    }
}

/// The executable step `r` stands for the step `s`: kind 0 refuses, 1 ends, 2
/// goes on to the position, output length and state that follow.
pub open spec fn step_matches(s: LzoStep, r: (u8, usize, usize, usize)) -> bool {
    match s {
        LzoStep::Fail => r.0 == 0,
        LzoStep::End => r.0 == 1,
        LzoStep::Next(p, o, st) => r.0 == 2 && r.1 == p && r.2 == o && r.3 == st,
    }
}

fn step_exec(d: &[u8], p: usize, out: usize, state: usize, limit: usize) -> (r: (u8, usize, usize, usize))
    requires
        p <= d@.len(),
        out <= limit <= MAX_LIMIT,
        state <= 4,
    ensures
        step_matches(lzo_step(d@, p as int, out as int, state as int, limit as int), r),
        r.0 == 2 ==> r.1 <= d@.len() && r.2 <= limit && r.3 <= 4,
{
    let len = d.len();
    if p >= len {
        return (0, 0, 0, 0);
    }
    let inst = d[p] as usize;
    let after = p + 1;
    if inst >= 64 {
        if after >= len {
            return (0, 0, 0, 0);
        }
        copy_exec(d, after + 1, out, d[after] as usize * 8 + (inst / 4) % 8 + 1, inst / 32 + 1, inst % 4, limit)
    } else if inst >= 32 {
        let (k, l, q) = ext_len_exec(d, after, inst % 32 + 2, 2, 31, limit);
        if k == 0 {
            return (0, 0, 0, 0);
        }
        if 2 > len - q {
            return (0, 0, 0, 0);
        }
        if k == 1 {
            return (0, 0, 0, 0);
        }
        let n = le16_exec(d, q);
        copy_exec(d, q + 2, out, n / 4 + 1, l, n % 4, limit)
    } else if inst >= 16 {
        let (k, l, q) = ext_len_exec(d, after, inst % 8 + 2, 2, 7, limit);
        if k == 0 {
            return (0, 0, 0, 0);
        }
        if 2 > len - q {
            return (0, 0, 0, 0);
        }
        let n = le16_exec(d, q);
        let d4 = ((inst / 8) % 2) * 16384 + n / 4;
        if d4 == 0 {
            return (1, 0, 0, 0);
        }
        if k == 1 {
            return (0, 0, 0, 0);
        }
        copy_exec(d, q + 2, out, d4 + 16384, l, n % 4, limit)
    } else if state == 0 {
        let (k, l, q) = ext_len_exec(d, after, inst + 3, 3, 15, limit);
        if k != 2 {
            return (0, 0, 0, 0);
        }
        if l > len - q || l > limit - out {
            return (0, 0, 0, 0);
        }
        (2, q + l, out + l, 4)
    } else if after >= len {
        (0, 0, 0, 0)
    } else if state != 4 {
        copy_exec(d, after + 1, out, inst / 4 + d[after] as usize * 4 + 1, 2, inst % 4, limit)
    } else {
        copy_exec(d, after + 1, out, inst / 4 + d[after] as usize * 4 + 2049, 3, inst % 4, limit)
    }
}

/// Walks the LZO1X stream `d` as lzokay-native's decoder would, and tells whether
/// it reaches the end marker with every read inside `d`, every back-reference
/// inside the output so far, and at most `limit` bytes of output.
pub fn lzo_stream_check(d: &[u8], limit: usize) -> (r: bool)
    requires
        limit <= MAX_LIMIT,
    ensures
        r == lzo_stream_ok(d@, limit as int),
{
    let len = d.len();
    if len == 0 {
        return false;
    }
    let mut p: usize;
    let mut out: usize;
    let mut state: usize;
    if d[0] >= 18 {
        let l = d[0] as usize - 17;
        if l > len - 1 || l > limit {
            return false;
        }
        p = 1 + l;
        out = l;
        state = if d[0] >= 22 { 4 } else { l };
    } else {
        p = 0;
        out = 0;
        state = 0;
    }
    loop
        invariant
            len == d@.len(),
            p <= len,
            out <= limit <= MAX_LIMIT,
            state <= 4,
            lzo_stream_ok(d@, limit as int) == lzo_walk(d@, p as int, out as int, state as int, limit as int),
        decreases len - p,
    {
        let (k, next_pos, next_out, next_state) = step_exec(d, p, out, state, limit);
        if k == 0 {
            return false;
        }
        if k == 1 {
            return true;
        }
        if next_pos <= p {
            return false;
        }
        p = next_pos;
        out = next_out;
        state = next_state;
    }
}

} // verus!
