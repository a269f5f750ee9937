//! Little-endian byte-level primitives shared by the message codec.
//!
//! Each integer width has a spec-level encoding (`u32_le`, `u64_le`), an
//! executable writer (`push_u32`, `push_u64`) and an executable reader
//! (`read_u32`, `read_u64`), together with proofs that reading inverts
//! writing in both directions: decoding an encoding yields the value back,
//! and re-encoding a decoded slice reproduces the slice. Booleans travel as
//! one byte, `0` or `1`; any other byte is rejected.

use vstd::prelude::*;

verus! {

/// The four bytes of `v`, least significant first.
pub open spec fn u32_le(v: u32) -> Seq<u8> {
    seq![
        (v & 0xff) as u8,
        ((v >> 8) & 0xff) as u8,
        ((v >> 16) & 0xff) as u8,
        ((v >> 24) & 0xff) as u8,
    ]
}

/// The value carried by four little-endian bytes.
pub open spec fn u32_from_le(s: Seq<u8>) -> u32
    recommends
        s.len() == 4,
{
    (s[0] as u32) | ((s[1] as u32) << 8) | ((s[2] as u32) << 16) | ((s[3] as u32) << 24)
}

/// The eight bytes of `v`, least significant first.
pub open spec fn u64_le(v: u64) -> Seq<u8> {
    seq![
        (v & 0xff) as u8,
        ((v >> 8) & 0xff) as u8,
        ((v >> 16) & 0xff) as u8,
        ((v >> 24) & 0xff) as u8,
        ((v >> 32) & 0xff) as u8,
        ((v >> 40) & 0xff) as u8,
        ((v >> 48) & 0xff) as u8,
        ((v >> 56) & 0xff) as u8,
    ]
}

/// The value carried by eight little-endian bytes.
pub open spec fn u64_from_le(s: Seq<u8>) -> u64
    recommends
        s.len() == 8,
{
    (s[0] as u64) | ((s[1] as u64) << 8) | ((s[2] as u64) << 16) | ((s[3] as u64) << 24)
        | ((s[4] as u64) << 32) | ((s[5] as u64) << 40) | ((s[6] as u64) << 48)
        | ((s[7] as u64) << 56)
}

/// The byte carrying a boolean.
pub open spec fn bool_byte(b: bool) -> u8 {
    if b {
        1
    } else {
        0
    }
}

/// Reading the four bytes of a value yields the value back.
pub proof fn lemma_u32_le_inverse(v: u32)
    ensures
        u32_from_le(u32_le(v)) == v,
{
    assert((((v & 0xff) as u8) as u32) | (((((v >> 8) & 0xff) as u8) as u32) << 8)
        | (((((v >> 16) & 0xff) as u8) as u32) << 16) | (((((v >> 24) & 0xff) as u8) as u32)
        << 24) == v) by (bit_vector);
}

/// Re-encoding the value read from four bytes reproduces those bytes.
pub proof fn lemma_u32_from_le_inverse(s: Seq<u8>)
    requires
        s.len() == 4,
    ensures
        u32_le(u32_from_le(s)) == s,
{
    let b0 = s[0];
    let b1 = s[1];
    let b2 = s[2];
    let b3 = s[3];
    let v = u32_from_le(s);
    assert(v == (b0 as u32) | ((b1 as u32) << 8) | ((b2 as u32) << 16) | ((b3 as u32) << 24));
    assert(((((b0 as u32) | ((b1 as u32) << 8) | ((b2 as u32) << 16) | ((b3 as u32) << 24))
        & 0xff) as u8) == b0) by (bit_vector);
    assert(((((b0 as u32) | ((b1 as u32) << 8) | ((b2 as u32) << 16) | ((b3 as u32) << 24))
        >> 8) & 0xff) as u8 == b1) by (bit_vector);
    assert(((((b0 as u32) | ((b1 as u32) << 8) | ((b2 as u32) << 16) | ((b3 as u32) << 24))
        >> 16) & 0xff) as u8 == b2) by (bit_vector);
    assert(((((b0 as u32) | ((b1 as u32) << 8) | ((b2 as u32) << 16) | ((b3 as u32) << 24))
        >> 24) & 0xff) as u8 == b3) by (bit_vector);
    assert(u32_le(v) =~= s);
}

/// Reading the eight bytes of a value yields the value back.
pub proof fn lemma_u64_le_inverse(v: u64)
    ensures
        u64_from_le(u64_le(v)) == v,
{
    assert((((v & 0xff) as u8) as u64) | (((((v >> 8) & 0xff) as u8) as u64) << 8)
        | (((((v >> 16) & 0xff) as u8) as u64) << 16) | (((((v >> 24) & 0xff) as u8) as u64)
        << 24) | (((((v >> 32) & 0xff) as u8) as u64) << 32) | (((((v >> 40) & 0xff) as u8)
        as u64) << 40) | (((((v >> 48) & 0xff) as u8) as u64) << 48) | (((((v >> 56)
        & 0xff) as u8) as u64) << 56) == v) by (bit_vector);
}

/// Re-encoding the value read from eight bytes reproduces those bytes.
pub proof fn lemma_u64_from_le_inverse(s: Seq<u8>)
    requires
        s.len() == 8,
    ensures
        u64_le(u64_from_le(s)) == s,
{
    let b0 = s[0];
    let b1 = s[1];
    let b2 = s[2];
    let b3 = s[3];
    let b4 = s[4];
    let b5 = s[5];
    let b6 = s[6];
    let b7 = s[7];
    let v = u64_from_le(s);
    assert(v == (b0 as u64) | ((b1 as u64) << 8) | ((b2 as u64) << 16) | ((b3 as u64) << 24)
        | ((b4 as u64) << 32) | ((b5 as u64) << 40) | ((b6 as u64) << 48) | ((b7 as u64) << 56));
    assert(((((b0 as u64) | ((b1 as u64) << 8) | ((b2 as u64) << 16) | ((b3 as u64) << 24)
        | ((b4 as u64) << 32) | ((b5 as u64) << 40) | ((b6 as u64) << 48) | ((b7 as u64) << 56))
        & 0xff) as u8) == b0) by (bit_vector);
    assert(((((b0 as u64) | ((b1 as u64) << 8) | ((b2 as u64) << 16) | ((b3 as u64) << 24)
        | ((b4 as u64) << 32) | ((b5 as u64) << 40) | ((b6 as u64) << 48) | ((b7 as u64) << 56))
        >> 8) & 0xff) as u8 == b1) by (bit_vector);
    assert(((((b0 as u64) | ((b1 as u64) << 8) | ((b2 as u64) << 16) | ((b3 as u64) << 24)
        | ((b4 as u64) << 32) | ((b5 as u64) << 40) | ((b6 as u64) << 48) | ((b7 as u64) << 56))
        >> 16) & 0xff) as u8 == b2) by (bit_vector);
    assert(((((b0 as u64) | ((b1 as u64) << 8) | ((b2 as u64) << 16) | ((b3 as u64) << 24)
        | ((b4 as u64) << 32) | ((b5 as u64) << 40) | ((b6 as u64) << 48) | ((b7 as u64) << 56))
        >> 24) & 0xff) as u8 == b3) by (bit_vector);
    assert(((((b0 as u64) | ((b1 as u64) << 8) | ((b2 as u64) << 16) | ((b3 as u64) << 24)
        | ((b4 as u64) << 32) | ((b5 as u64) << 40) | ((b6 as u64) << 48) | ((b7 as u64) << 56))
        >> 32) & 0xff) as u8 == b4) by (bit_vector);
    assert(((((b0 as u64) | ((b1 as u64) << 8) | ((b2 as u64) << 16) | ((b3 as u64) << 24)
        | ((b4 as u64) << 32) | ((b5 as u64) << 40) | ((b6 as u64) << 48) | ((b7 as u64) << 56))
        >> 40) & 0xff) as u8 == b5) by (bit_vector);
    assert(((((b0 as u64) | ((b1 as u64) << 8) | ((b2 as u64) << 16) | ((b3 as u64) << 24)
        | ((b4 as u64) << 32) | ((b5 as u64) << 40) | ((b6 as u64) << 48) | ((b7 as u64) << 56))
        >> 48) & 0xff) as u8 == b6) by (bit_vector);
    assert(((((b0 as u64) | ((b1 as u64) << 8) | ((b2 as u64) << 16) | ((b3 as u64) << 24)
        | ((b4 as u64) << 32) | ((b5 as u64) << 40) | ((b6 as u64) << 48) | ((b7 as u64) << 56))
        >> 56) & 0xff) as u8 == b7) by (bit_vector);
    assert(u64_le(v) =~= s);
}

/// Appends the little-endian bytes of `v`.
pub fn push_u32(out: &mut Vec<u8>, v: u32)
    ensures
        final(out)@ == old(out)@ + u32_le(v),
{
    out.push((v & 0xff) as u8);
    out.push(((v >> 8) & 0xff) as u8);
    out.push(((v >> 16) & 0xff) as u8);
    out.push(((v >> 24) & 0xff) as u8);
    proof {
        assert(out@ =~= old(out)@ + u32_le(v));
    }
}

/// Appends the little-endian bytes of `v`.
pub fn push_u64(out: &mut Vec<u8>, v: u64)
    ensures
        final(out)@ == old(out)@ + u64_le(v),
{
    out.push((v & 0xff) as u8);
    out.push(((v >> 8) & 0xff) as u8);
    out.push(((v >> 16) & 0xff) as u8);
    out.push(((v >> 24) & 0xff) as u8);
    out.push(((v >> 32) & 0xff) as u8);
    out.push(((v >> 40) & 0xff) as u8);
    out.push(((v >> 48) & 0xff) as u8);
    out.push(((v >> 56) & 0xff) as u8);
    proof {
        assert(out@ =~= old(out)@ + u64_le(v));
    }
}

/// Appends the byte of `b`.
pub fn push_bool(out: &mut Vec<u8>, b: bool)
    ensures
        final(out)@ == old(out)@ + seq![bool_byte(b)],
{
    out.push(if b {
        1
    } else {
        0
    });
    proof {
        assert(out@ =~= old(out)@ + seq![bool_byte(b)]);
    }
}

/// Reads the value whose little-endian bytes start at `i`.
pub fn read_u32(s: &Vec<u8>, i: usize) -> (r: u32)
    requires
        i + 4 <= s@.len(),
    ensures
        r == u32_from_le(s@.subrange(i as int, i + 4)),
        s@.subrange(i as int, i + 4) == u32_le(r),
{
    let _n = s.len();
    let r = (s[i] as u32) | ((s[i + 1] as u32) << 8) | ((s[i + 2] as u32) << 16) | ((s[i + 3]
        as u32) << 24);
    proof {
        let sub = s@.subrange(i as int, i + 4);
        assert(sub[0] == s@[i as int] && sub[1] == s@[i + 1] && sub[2] == s@[i + 2] && sub[3]
            == s@[i + 3]);
        lemma_u32_from_le_inverse(sub);
    }
    r
}

/// Reads the value whose little-endian bytes start at `i`.
pub fn read_u64(s: &Vec<u8>, i: usize) -> (r: u64)
    requires
        i + 8 <= s@.len(),
    ensures
        r == u64_from_le(s@.subrange(i as int, i + 8)),
        s@.subrange(i as int, i + 8) == u64_le(r),
{
    let _n = s.len();
    let r = (s[i] as u64) | ((s[i + 1] as u64) << 8) | ((s[i + 2] as u64) << 16) | ((s[i + 3]
        as u64) << 24) | ((s[i + 4] as u64) << 32) | ((s[i + 5] as u64) << 40) | ((s[i + 6]
        as u64) << 48) | ((s[i + 7] as u64) << 56);
    proof {
        let sub = s@.subrange(i as int, i + 8);
        assert(sub[0] == s@[i as int] && sub[1] == s@[i + 1] && sub[2] == s@[i + 2] && sub[3]
            == s@[i + 3] && sub[4] == s@[i + 4] && sub[5] == s@[i + 5] && sub[6] == s@[i + 6]
            && sub[7] == s@[i + 7]);
        lemma_u64_from_le_inverse(sub);
    }
    r
}

/// Reads the boolean at `i`; any byte other than `0` or `1` is malformed.
pub fn read_bool(s: &Vec<u8>, i: usize) -> (r: Option<bool>)
    requires
        i < s@.len(),
    ensures
        (match r {
            Some(b) => s@[i as int] == bool_byte(b),
            None => s@[i as int] != 0 && s@[i as int] != 1,
        }),
{
    if s[i] == 0 {
        Some(false)
    } else if s[i] == 1 {
        Some(true)
    } else {
        None
    }
}

} // verus!
