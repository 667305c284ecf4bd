//! Byte-level encoding primitives for record layouts and instruction
//! payloads: little-endian fixed-width integers, single-byte booleans,
//! length-prefixed byte strings, and raw 32-byte identifiers.
//!
//! Every record layout in this crate is a concatenation of these
//! primitives, so a later read can reconstruct exactly what an earlier
//! write stored; the round-trip lemmas at the end make that precise.

use vstd::prelude::*;

verus! {

/// Little-endian encoding of a `u32`: four bytes, least significant first.
pub open spec fn spec_u32_le(x: u32) -> Seq<u8> {
    seq![
        (x & 0xff) as u8,
        ((x >> 8) & 0xff) as u8,
        ((x >> 16) & 0xff) as u8,
        ((x >> 24) & 0xff) as u8,
    ]
}

/// Little-endian encoding of a `u64`: eight bytes, least significant first.
pub open spec fn spec_u64_le(x: u64) -> Seq<u8> {
    seq![
        (x & 0xff) as u8,
        ((x >> 8) & 0xff) as u8,
        ((x >> 16) & 0xff) as u8,
        ((x >> 24) & 0xff) as u8,
        ((x >> 32) & 0xff) as u8,
        ((x >> 40) & 0xff) as u8,
        ((x >> 48) & 0xff) as u8,
        ((x >> 56) & 0xff) as u8,
    ]
}

/// Big-endian encoding of a `u64`: eight bytes, most significant first.
/// Used as a derivation seed so that consecutive counter values produce
/// distinct seed bytes.
pub open spec fn spec_u64_be(x: u64) -> Seq<u8> {
    seq![
        ((x >> 56) & 0xff) as u8,
        ((x >> 48) & 0xff) as u8,
        ((x >> 40) & 0xff) as u8,
        ((x >> 32) & 0xff) as u8,
        ((x >> 24) & 0xff) as u8,
        ((x >> 16) & 0xff) as u8,
        ((x >> 8) & 0xff) as u8,
        (x & 0xff) as u8,
    ]
}

/// One-byte encoding of a boolean flag.
pub open spec fn spec_bool(b: bool) -> Seq<u8> {
    seq![if b { 1u8 } else { 0u8 }]
}

/// Length-prefixed byte string: a `u32` little-endian length followed by
/// the bytes themselves.
pub open spec fn spec_bytes(b: Seq<u8>) -> Seq<u8> {
    spec_u32_le(b.len() as u32) + b
}

pub fn ser_u32_le(out: &mut Vec<u8>, x: u32)
    ensures
        final(out)@ == old(out)@ + spec_u32_le(x),
{
    let ghost out0 = out@;
    out.push((x & 0xff) as u8);
    out.push(((x >> 8) & 0xff) as u8);
    out.push(((x >> 16) & 0xff) as u8);
    out.push(((x >> 24) & 0xff) as u8);
    assert(out@ =~= out0 + spec_u32_le(x));
}

pub fn ser_u64_le(out: &mut Vec<u8>, x: u64)
    ensures
        final(out)@ == old(out)@ + spec_u64_le(x),
{
    let ghost out0 = out@;
    out.push((x & 0xff) as u8);
    out.push(((x >> 8) & 0xff) as u8);
    out.push(((x >> 16) & 0xff) as u8);
    out.push(((x >> 24) & 0xff) as u8);
    out.push(((x >> 32) & 0xff) as u8);
    out.push(((x >> 40) & 0xff) as u8);
    out.push(((x >> 48) & 0xff) as u8);
    out.push(((x >> 56) & 0xff) as u8);
    assert(out@ =~= out0 + spec_u64_le(x));
}

pub fn ser_u64_be(out: &mut Vec<u8>, x: u64)
    ensures
        final(out)@ == old(out)@ + spec_u64_be(x),
{
    let ghost out0 = out@;
    out.push(((x >> 56) & 0xff) as u8);
    out.push(((x >> 48) & 0xff) as u8);
    out.push(((x >> 40) & 0xff) as u8);
    out.push(((x >> 32) & 0xff) as u8);
    out.push(((x >> 24) & 0xff) as u8);
    out.push(((x >> 16) & 0xff) as u8);
    out.push(((x >> 8) & 0xff) as u8);
    out.push((x & 0xff) as u8);
    assert(out@ =~= out0 + spec_u64_be(x));
}

pub fn ser_bool(out: &mut Vec<u8>, b: bool)
    ensures
        final(out)@ == old(out)@ + spec_bool(b),
{
    let ghost out0 = out@;
    out.push(if b { 1u8 } else { 0u8 });
    assert(out@ =~= out0 + spec_bool(b));
}

pub fn ser_bytes(out: &mut Vec<u8>, b: &Vec<u8>)
    requires
        b@.len() <= u32::MAX,
    ensures
        final(out)@ == old(out)@ + spec_bytes(b@),
{
    let ghost out0 = out@;
    ser_u32_le(out, b.len() as u32);
    let mut i: usize = 0;
    while i < b.len()
        invariant
            i <= b@.len(),
            b@.len() <= u32::MAX,
            out@ == out0 + spec_u32_le(b@.len() as u32) + b@.subrange(0, i as int),
        decreases b@.len() - i,
    {
        out.push(b[i]);
        i = i + 1;
        assert(out@ =~= out0 + spec_u32_le(b@.len() as u32) + b@.subrange(0, i as int));
    }
    assert(b@.subrange(0, b@.len() as int) =~= b@);
    assert(out@ =~= out0 + spec_bytes(b@));
}

/// Raw 32-byte identifier, appended with no prefix.
pub fn ser_id(out: &mut Vec<u8>, id: &Vec<u8>)
    requires
        id@.len() == 32,
    ensures
        final(out)@ == old(out)@ + id@,
{
    let ghost out0 = out@;
    let mut i: usize = 0;
    while i < id.len()
        invariant
            i <= id@.len(),
            out@ == out0 + id@.subrange(0, i as int),
        decreases id@.len() - i,
    {
        out.push(id[i]);
        i = i + 1;
        assert(out@ =~= out0 + id@.subrange(0, i as int));
    }
    assert(id@.subrange(0, id@.len() as int) =~= id@);
}

/// Big-endian counter bytes as an executable value, for use as a
/// derivation seed.
pub fn u64_be_bytes(x: u64) -> (r: Vec<u8>)
    ensures
        r@ == spec_u64_be(x),
{
    let mut out: Vec<u8> = Vec::new();
    ser_u64_be(&mut out, x);
    out
}

/// Parse a little-endian `u32` from position `at` of `s`; the result pairs
/// the value with the index just past it.
pub open spec fn spec_parse_u32(s: Seq<u8>, at: int) -> Option<(u32, int)> {
    if at + 4 <= s.len() && 0 <= at {
        Some((
            (s[at] as u32)
                | ((s[at + 1] as u32) << 8)
                | ((s[at + 2] as u32) << 16)
                | ((s[at + 3] as u32) << 24),
            at + 4,
        ))
    } else {
        None
    }
}

pub open spec fn spec_parse_u64(s: Seq<u8>, at: int) -> Option<(u64, int)> {
    if at + 8 <= s.len() && 0 <= at {
        Some((
            (s[at] as u64)
                | ((s[at + 1] as u64) << 8)
                | ((s[at + 2] as u64) << 16)
                | ((s[at + 3] as u64) << 24)
                | ((s[at + 4] as u64) << 32)
                | ((s[at + 5] as u64) << 40)
                | ((s[at + 6] as u64) << 48)
                | ((s[at + 7] as u64) << 56),
            at + 8,
        ))
    } else {
        None
    }
}

/// Parse a one-byte boolean; any byte other than 0 or 1 is rejected.
pub open spec fn spec_parse_bool(s: Seq<u8>, at: int) -> Option<(bool, int)> {
    if at + 1 <= s.len() && 0 <= at {
        if s[at] == 0 {
            Some((false, at + 1))
        } else if s[at] == 1 {
            Some((true, at + 1))
        } else {
            None
        }
    } else {
        None
    }
}

/// Parse a length-prefixed byte string.
pub open spec fn spec_parse_bytes(s: Seq<u8>, at: int) -> Option<(Seq<u8>, int)> {
    match spec_parse_u32(s, at) {
        Some((n, at2)) => {
            if at2 + n <= s.len() {
                Some((s.subrange(at2, at2 + n), at2 + n))
            } else {
                None
            }
        },
        None => None,
    }
}

/// Parse a raw 32-byte identifier.
pub open spec fn spec_parse_id(s: Seq<u8>, at: int) -> Option<(Seq<u8>, int)> {
    if at + 32 <= s.len() && 0 <= at {
        Some((s.subrange(at, at + 32), at + 32))
    } else {
        None
    }
}

pub fn parse_u32(s: &Vec<u8>, at: usize) -> (r: Option<(u32, usize)>)
    ensures
        match r {
            Some((x, at2)) => spec_parse_u32(s@, at as int) == Some((x, at2 as int)),
            None => spec_parse_u32(s@, at as int) is None,
        },
{
    if at < s.len() && s.len() - at >= 4 {
        let x: u32 = (s[at] as u32)
            | ((s[at + 1] as u32) << 8)
            | ((s[at + 2] as u32) << 16)
            | ((s[at + 3] as u32) << 24);
        Some((x, at + 4))
    } else {
        None
    }
}

pub fn parse_u64(s: &Vec<u8>, at: usize) -> (r: Option<(u64, usize)>)
    ensures
        match r {
            Some((x, at2)) => spec_parse_u64(s@, at as int) == Some((x, at2 as int)),
            None => spec_parse_u64(s@, at as int) is None,
        },
{
    if at < s.len() && s.len() - at >= 8 {
        let x: u64 = (s[at] as u64)
            | ((s[at + 1] as u64) << 8)
            | ((s[at + 2] as u64) << 16)
            | ((s[at + 3] as u64) << 24)
            | ((s[at + 4] as u64) << 32)
            | ((s[at + 5] as u64) << 40)
            | ((s[at + 6] as u64) << 48)
            | ((s[at + 7] as u64) << 56);
        Some((x, at + 8))
    } else {
        None
    }
}

pub fn parse_bool(s: &Vec<u8>, at: usize) -> (r: Option<(bool, usize)>)
    ensures
        match r {
            Some((b, at2)) => spec_parse_bool(s@, at as int) == Some((b, at2 as int)),
            None => spec_parse_bool(s@, at as int) is None,
        },
{
    if at < s.len() {
        if s[at] == 0 {
            Some((false, at + 1))
        } else if s[at] == 1 {
            Some((true, at + 1))
        } else {
            None
        }
    } else {
        None
    }
}

pub fn parse_bytes(s: &Vec<u8>, at: usize) -> (r: Option<(Vec<u8>, usize)>)
    ensures
        match r {
            Some((b, at2)) => spec_parse_bytes(s@, at as int) == Some((b@, at2 as int)),
            None => spec_parse_bytes(s@, at as int) is None,
        },
{
    match parse_u32(s, at) {
        Some((n, at2)) => {
            let n_us: usize = n as usize;
            if n_us <= s.len() && at2 <= s.len() - n_us {
                let mut b: Vec<u8> = Vec::new();
                let mut i: usize = 0;
                while i < n_us
                    invariant
                        i <= n_us,
                        at2 + n_us <= s@.len(),
                        at2 + n_us <= usize::MAX,
                        b@ == s@.subrange(at2 as int, at2 + i as int),
                    decreases n_us - i,
                {
                    b.push(s[at2 + i]);
                    i = i + 1;
                    assert(b@ =~= s@.subrange(at2 as int, at2 + i as int));
                }
                Some((b, at2 + n_us))
            } else {
                None
            }
        },
        None => None,
    }
}

pub fn parse_id(s: &Vec<u8>, at: usize) -> (r: Option<(Vec<u8>, usize)>)
    ensures
        match r {
            Some((b, at2)) => spec_parse_id(s@, at as int) == Some((b@, at2 as int)),
            None => spec_parse_id(s@, at as int) is None,
        },
{
    if at < s.len() && s.len() - at >= 32 {
        let mut b: Vec<u8> = Vec::new();
        let mut i: usize = 0;
        while i < 32
            invariant
                i <= 32,
                at + 32 <= s@.len(),
                at + 32 <= usize::MAX,
                b@ == s@.subrange(at as int, at + i as int),
            decreases 32 - i,
        {
            b.push(s[at + i]);
            i = i + 1;
            assert(b@ =~= s@.subrange(at as int, at + i as int));
        }
        Some((b, at + 32))
    } else {
        None
    }
}

/// Reading a `u32` back from its own encoding yields the value written,
/// wherever the encoding sits inside a larger buffer.
pub proof fn lemma_parse_ser_u32(pre: Seq<u8>, x: u32, rest: Seq<u8>)
    ensures
        spec_parse_u32(pre + spec_u32_le(x) + rest, pre.len() as int)
            == Some((x, pre.len() as int + 4)),
{
    let s = pre + spec_u32_le(x) + rest;
    let at = pre.len() as int;
    assert(s[at] == (x & 0xff) as u8);
    assert(s[at + 1] == ((x >> 8) & 0xff) as u8);
    assert(s[at + 2] == ((x >> 16) & 0xff) as u8);
    assert(s[at + 3] == ((x >> 24) & 0xff) as u8);
    assert(((x & 0xff) as u8 as u32)
        | ((((x >> 8) & 0xff) as u8 as u32) << 8)
        | ((((x >> 16) & 0xff) as u8 as u32) << 16)
        | ((((x >> 24) & 0xff) as u8 as u32) << 24) == x) by (bit_vector);
}

pub proof fn lemma_parse_ser_u64(pre: Seq<u8>, x: u64, rest: Seq<u8>)
    ensures
        spec_parse_u64(pre + spec_u64_le(x) + rest, pre.len() as int)
            == Some((x, pre.len() as int + 8)),
{
    let s = pre + spec_u64_le(x) + rest;
    let at = pre.len() as int;
    assert(s[at] == (x & 0xff) as u8);
    assert(s[at + 1] == ((x >> 8) & 0xff) as u8);
    assert(s[at + 2] == ((x >> 16) & 0xff) as u8);
    assert(s[at + 3] == ((x >> 24) & 0xff) as u8);
    assert(s[at + 4] == ((x >> 32) & 0xff) as u8);
    assert(s[at + 5] == ((x >> 40) & 0xff) as u8);
    assert(s[at + 6] == ((x >> 48) & 0xff) as u8);
    assert(s[at + 7] == ((x >> 56) & 0xff) as u8);
    assert(((x & 0xff) as u8 as u64)
        | ((((x >> 8) & 0xff) as u8 as u64) << 8)
        | ((((x >> 16) & 0xff) as u8 as u64) << 16)
        | ((((x >> 24) & 0xff) as u8 as u64) << 24)
        | ((((x >> 32) & 0xff) as u8 as u64) << 32)
        | ((((x >> 40) & 0xff) as u8 as u64) << 40)
        | ((((x >> 48) & 0xff) as u8 as u64) << 48)
        | ((((x >> 56) & 0xff) as u8 as u64) << 56) == x) by (bit_vector);
}

pub proof fn lemma_parse_ser_bool(pre: Seq<u8>, b: bool, rest: Seq<u8>)
    ensures
        spec_parse_bool(pre + spec_bool(b) + rest, pre.len() as int)
            == Some((b, pre.len() as int + 1)),
{
    let s = pre + spec_bool(b) + rest;
    let at = pre.len() as int;
    assert(s[at] == if b { 1u8 } else { 0u8 });
}

pub proof fn lemma_parse_ser_bytes(pre: Seq<u8>, b: Seq<u8>, rest: Seq<u8>)
    requires
        b.len() <= u32::MAX,
    ensures
        spec_parse_bytes(pre + spec_bytes(b) + rest, pre.len() as int)
            == Some((b, pre.len() as int + 4 + b.len() as int)),
{
    let s = pre + spec_bytes(b) + rest;
    let at = pre.len() as int;
    assert(pre + spec_bytes(b) + rest =~= pre + spec_u32_le(b.len() as u32) + (b + rest));
    lemma_parse_ser_u32(pre, b.len() as u32, b + rest);
    assert(s.subrange(at + 4, at + 4 + b.len() as int) =~= b);
}

pub proof fn lemma_parse_ser_id(pre: Seq<u8>, id: Seq<u8>, rest: Seq<u8>)
    requires
        id.len() == 32,
    ensures
        spec_parse_id(pre + id + rest, pre.len() as int)
            == Some((id, pre.len() as int + 32)),
{
    let s = pre + id + rest;
    let at = pre.len() as int;
    assert(s.subrange(at, at + 32) =~= id);
}

} // verus!
