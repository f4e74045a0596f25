//! Byte-level primitives of the wire format: little-endian integer fields,
//! two's-complement reinterpretation, and NUL-terminated strings. Each exec
//! reader is specified against a spec function that states the value of the
//! bytes directly.

use vstd::prelude::*;
use crate::error::Error;

verus! {

broadcast use vstd::slice::axiom_spec_len;

/// Value of a two-byte little-endian field.
pub open spec fn le16_at(s: Seq<u8>, pos: int) -> int {
    s[pos] + 0x100 * s[pos + 1]
}

/// Value of a two-byte big-endian field (the master reply's port).
pub open spec fn be16_at(s: Seq<u8>, pos: int) -> int {
    0x100 * s[pos] + s[pos + 1]
}

/// Value of a four-byte little-endian field.
pub open spec fn le32_at(s: Seq<u8>, pos: int) -> int {
    s[pos] + 0x100 * s[pos + 1] + 0x10000 * s[pos + 2] + 0x1000000 * s[pos + 3]
}

/// Value of an eight-byte little-endian field.
pub open spec fn le64_at(s: Seq<u8>, pos: int) -> int {
    le32_at(s, pos) + 0x1_0000_0000 * le32_at(s, pos + 4)
}

/// Two's-complement reading of an unsigned 32-bit value.
pub open spec fn as_signed32(v: int) -> int {
    if v < 0x8000_0000 {
        v
    } else {
        v - 0x1_0000_0000
    }
}

/// Two's-complement reading of an unsigned 16-bit value.
pub open spec fn as_signed16(v: int) -> int {
    if v < 0x8000 {
        v
    } else {
        v - 0x1_0000
    }
}

/// Position of the first NUL byte at or after `pos`, if any.
pub open spec fn find_nul(s: Seq<u8>, pos: int) -> Option<int>
    decreases s.len() - pos,
{
    if pos < 0 || pos >= s.len() {
        None
    } else if s[pos] == 0 {
        Some(pos)
    } else {
        find_nul(s, pos + 1)
    }
}

/// What `find_nul` finds is a NUL with no earlier NUL, inside the buffer.
pub proof fn lemma_find_nul(s: Seq<u8>, pos: int)
    requires
        0 <= pos <= s.len(),
    ensures
        match find_nul(s, pos) {
            Some(e) => pos <= e < s.len() && s[e] == 0
                && forall|i: int| pos <= i < e ==> s[i] != 0,
            None => forall|i: int| pos <= i < s.len() ==> s[i] != 0,
        },
    decreases s.len() - pos,
{
    if pos < s.len() && s[pos] != 0 {
        lemma_find_nul(s, pos + 1);
    }
}

/// Reads a little-endian `u16` at `pos`.
pub fn read_u16_at(s: &[u8], pos: usize) -> (r: u16)
    requires
        pos + 2 <= s@.len(),
    ensures
        r == le16_at(s@, pos as int),
{
    let b0 = s[pos];
    let b1 = s[pos + 1];
    b0 as u16 + 0x100 * (b1 as u16)
}

/// Reads a big-endian `u16` at `pos`.
pub fn read_u16_be_at(s: &[u8], pos: usize) -> (r: u16)
    requires
        pos + 2 <= s@.len(),
    ensures
        r == be16_at(s@, pos as int),
{
    let b0 = s[pos];
    let b1 = s[pos + 1];
    0x100 * (b0 as u16) + b1 as u16
}

/// Reads a little-endian `u32` at `pos`.
pub fn read_u32_at(s: &[u8], pos: usize) -> (r: u32)
    requires
        pos + 4 <= s@.len(),
    ensures
        r == le32_at(s@, pos as int),
{
    let b0 = s[pos];
    let b1 = s[pos + 1];
    let b2 = s[pos + 2];
    let b3 = s[pos + 3];
    b0 as u32 + 0x100 * (b1 as u32) + 0x10000 * (b2 as u32) + 0x1000000 * (b3 as u32)
}

/// Reads a little-endian `u64` at `pos`.
pub fn read_u64_at(s: &[u8], pos: usize) -> (r: u64)
    requires
        pos + 8 <= s@.len(),
    ensures
        r == le64_at(s@, pos as int),
{
    let _n: usize = s.len();
    let lo = read_u32_at(s, pos);
    let hi = read_u32_at(s, pos + 4);
    lo as u64 + 0x1_0000_0000 * (hi as u64)
}

/// Reinterprets a `u32` as the `i32` with the same bytes.
pub fn to_i32(v: u32) -> (r: i32)
    ensures
        r == as_signed32(v as int),
{
    if v < 0x8000_0000 {
        v as i32
    } else {
        ((v as i64) - 0x1_0000_0000i64) as i32
    }
}

/// Reinterprets a `u16` as the `i16` with the same bytes.
pub fn to_i16(v: u16) -> (r: i16)
    ensures
        r == as_signed16(v as int),
{
    if v < 0x8000 {
        v as i16
    } else {
        ((v as i32) - 0x1_0000i32) as i16
    }
}

/// Searching from `pos` is searching the suffix from its start.
pub proof fn lemma_find_nul_shift(s: Seq<u8>, pos: int)
    requires
        0 <= pos <= s.len(),
    ensures
        match find_nul(s, pos) {
            Some(e) => find_nul(s.skip(pos), 0) == Some(e - pos),
            None => find_nul(s.skip(pos), 0) is None,
        },
{
    let t = s.skip(pos);
    lemma_find_nul(s, pos);
    lemma_find_nul(t, 0);
    match find_nul(s, pos) {
        Some(e) => {
            assert(t[e - pos] == s[e]);
            match find_nul(t, 0) {
                Some(e2) => {
                    if e2 < e - pos {
                        assert(s[pos + e2] == t[e2]);
                    } else if e2 > e - pos {
                        assert(t[e - pos] != 0);
                    }
                },
                None => {
                    assert(t[e - pos] != 0);
                },
            }
        },
        None => {
            match find_nul(t, 0) {
                Some(e2) => {
                    assert(s[pos + e2] == t[e2]);
                },
                None => {},
            }
        },
    }
}

/// Reads a NUL-terminated byte string at `pos`: the bytes before the first
/// NUL, with the terminator consumed. Fails when no NUL remains.
pub fn read_cstring(s: &[u8], pos: usize) -> (r: Result<(Vec<u8>, usize), Error>)
    requires
        pos <= s@.len(),
    ensures
        match find_nul(s@, pos as int) {
            Some(e) => r matches Ok(p)
                && p.0@ == s@.subrange(pos as int, e)
                && p.1 == e + 1,
            None => r matches Err(Error::Parse(q)) && q == pos,
        },
{
    proof {
        lemma_find_nul(s@, pos as int);
    }
    let mut end: usize = pos;
    while end < s.len() && s[end] != 0
        invariant
            pos <= end <= s@.len(),
            forall|i: int| pos <= i < end ==> s@[i] != 0,
        decreases s@.len() - end,
    {
        end = end + 1;
    }
    if end == s.len() {
        return Err(Error::Parse(pos));
    }
    let sub = vstd::slice::slice_subrange(s, pos, end);
    let v = vstd::slice::slice_to_vec(sub);
    Ok((v, end + 1))
}

} // verus!
