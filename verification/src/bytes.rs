use vstd::arithmetic::div_mod::{
    lemma_div_denominator, lemma_fundamental_div_mod, lemma_small_mod,
};
use vstd::prelude::*;

verus! {

/// The value stored little-endian in two bytes.
pub open spec fn le16(b0: u8, b1: u8) -> int {
    b0 as int + 256 * (b1 as int)
}

/// The value stored little-endian in four bytes.
pub open spec fn le32(b0: u8, b1: u8, b2: u8, b3: u8) -> int {
    b0 as int + 256 * (b1 as int) + 65536 * (b2 as int) + 16777216 * (b3 as int)
}

/// Byte `k` (counting from the least significant) of the little-endian
/// encoding of `n`.
pub open spec fn le_byte(n: int, k: int) -> u8 {
    if k == 0 {
        (n % 256) as u8
    } else if k == 1 {
        ((n / 256) % 256) as u8
    } else if k == 2 {
        ((n / 65536) % 256) as u8
    } else {
        ((n / 16777216) % 256) as u8
    }
}

/// `n` rounded up to the next multiple of four.
pub open spec fn align4(n: int) -> int {
    if n % 4 == 0 {
        n
    } else {
        n + (4 - n % 4)
    }
}

/// A run of `n` zero bytes.
pub open spec fn zeros(n: int) -> Seq<u8> {
    Seq::new(n as nat, |i: int| 0u8)
}

pub proof fn lemma_le16_roundtrip(n: int)
    requires
        0 <= n < 65536,
    ensures
        le16(le_byte(n, 0), le_byte(n, 1)) == n,
{
    lemma_fundamental_div_mod(n, 256);
    lemma_small_mod((n / 256) as nat, 256);
}

pub proof fn lemma_le16_bytes(b0: u8, b1: u8)
    ensures
        le_byte(le16(b0, b1), 0) == b0,
        le_byte(le16(b0, b1), 1) == b1,
        0 <= le16(b0, b1) < 65536,
{
    let n = le16(b0, b1);
    lemma_fundamental_div_mod(n, 256);
    lemma_small_mod(b0 as nat, 256);
    lemma_small_mod(b1 as nat, 256);
}

pub proof fn lemma_le32_roundtrip(n: int)
    requires
        0 <= n < 4294967296,
    ensures
        le32(le_byte(n, 0), le_byte(n, 1), le_byte(n, 2), le_byte(n, 3)) == n,
{
    lemma_fundamental_div_mod(n, 256);
    lemma_fundamental_div_mod(n / 256, 256);
    lemma_fundamental_div_mod(n / 65536, 256);
    lemma_div_denominator(n, 256, 256);
    lemma_div_denominator(n, 65536, 256);
    lemma_small_mod((n / 16777216) as nat, 256);
}

pub proof fn lemma_le32_bytes(b0: u8, b1: u8, b2: u8, b3: u8)
    ensures
        le_byte(le32(b0, b1, b2, b3), 0) == b0,
        le_byte(le32(b0, b1, b2, b3), 1) == b1,
        le_byte(le32(b0, b1, b2, b3), 2) == b2,
        le_byte(le32(b0, b1, b2, b3), 3) == b3,
        0 <= le32(b0, b1, b2, b3) < 4294967296,
{
    let n = le32(b0, b1, b2, b3);
    lemma_fundamental_div_mod(n, 256);
    lemma_fundamental_div_mod(n / 256, 256);
    lemma_fundamental_div_mod(n / 65536, 256);
    lemma_div_denominator(n, 256, 256);
    lemma_div_denominator(n, 65536, 256);
    lemma_small_mod(b0 as nat, 256);
    assert((n / 256) % 256 == b1 && (n / 65536) % 256 == b2 && n / 16777216 == b3)
        by (nonlinear_arith)
        requires
            n == b0 + 256 * b1 + 65536 * b2 + 16777216 * b3,
            0 <= b0 < 256 && 0 <= b1 < 256 && 0 <= b2 < 256 && 0 <= b3 < 256,
    ;
    lemma_small_mod(b3 as nat, 256);
}

pub proof fn lemma_align4_bounds(n: int)
    requires
        0 <= n,
    ensures
        n <= align4(n) < n + 4,
        align4(n) % 4 == 0,
{
    lemma_fundamental_div_mod(n, 4);
    if n % 4 != 0 {
        let q = n / 4;
        assert(align4(n) == 4 * (q + 1));
        assert(4 * (q + 1) % 4 == 0) by (nonlinear_arith);
    }
}

/// Reads the 16-bit little-endian value from two bytes.
pub fn read_u16_le(b0: u8, b1: u8) -> (r: u16)
    ensures
        r as int == le16(b0, b1),
{
    b0 as u16 + 256 * (b1 as u16)
}

/// Reads the 32-bit little-endian value from four bytes.
pub fn read_u32_le(b0: u8, b1: u8, b2: u8, b3: u8) -> (r: u32)
    ensures
        r as int == le32(b0, b1, b2, b3),
{
    b0 as u32 + 256 * (b1 as u32) + 65536 * (b2 as u32) + 16777216 * (b3 as u32)
}

/// Splits a 16-bit value into its little-endian bytes.
pub fn split_u16_le(n: u16) -> (r: (u8, u8))
    ensures
        r.0 == le_byte(n as int, 0),
        r.1 == le_byte(n as int, 1),
        le16(r.0, r.1) == n as int,
{
    proof {
        lemma_le16_roundtrip(n as int);
    }
    ((n % 256) as u8, ((n / 256) % 256) as u8)
}

/// Splits a 32-bit value into its little-endian bytes.
pub fn split_u32_le(n: u32) -> (r: (u8, u8, u8, u8))
    ensures
        r.0 == le_byte(n as int, 0),
        r.1 == le_byte(n as int, 1),
        r.2 == le_byte(n as int, 2),
        r.3 == le_byte(n as int, 3),
        le32(r.0, r.1, r.2, r.3) == n as int,
{
    proof {
        lemma_le32_roundtrip(n as int);
    }
    (
        (n % 256) as u8,
        ((n / 256) % 256) as u8,
        ((n / 65536) % 256) as u8,
        ((n / 16777216) % 256) as u8,
    )
}

/// Rounds `n` up to the next multiple of four.
pub fn align_up_4(n: usize) -> (r: usize)
    requires
        align4(n as int) <= usize::MAX,
    ensures
        r as int == align4(n as int),
{
    let rem = n % 4;
    if rem == 0 {
        n
    } else {
        n + (4 - rem)
    }
}

/// Appends every byte of `src` to `out`, in order.
pub fn push_bytes(out: &mut Vec<u8>, src: &[u8])
    ensures
        final(out)@ == old(out)@ + src@,
{
    let mut j: usize = 0;
    while j < src.len()
        invariant
            j <= src.len(),
            out@ == old(out)@ + src@.take(j as int),
        decreases src.len() - j,
    {
        out.push(*vstd::slice::slice_index_get(src, j));
        proof {
            assert(old(out)@ + src@.take(j as int) + seq![src@[j as int]] =~= old(out)@
                + src@.take(j as int + 1));
        }
        j = j + 1;
    }
    proof {
        assert(src@.take(src@.len() as int) =~= src@);
    }
}

} // verus!
