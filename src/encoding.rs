//! Big-endian two's-complement encoding of 64-bit signed integers.
use vstd::prelude::*;

verus! {

/// Byte `i` (0 = most significant) of the two's-complement form of `n`.
pub open spec fn be_byte(n: i64, i: int) -> u8 {
    ((n as u64) >> ((56 - 8 * i) as u64)) as u8
}

/// The eight bytes of `n`, most significant first.
pub open spec fn be_bytes(n: i64) -> Seq<u8> {
    Seq::new(8, |i: int| be_byte(n, i))
}

/// Reads eight big-endian bytes back into a signed integer.
pub open spec fn be_value(b: Seq<u8>) -> i64 {
    ((b[0] as u64) << 56u64 | (b[1] as u64) << 48u64 | (b[2] as u64) << 40u64 | (b[3] as u64)
        << 32u64 | (b[4] as u64) << 24u64 | (b[5] as u64) << 16u64 | (b[6] as u64) << 8u64 | (
    b[7] as u64)) as i64
}

proof fn lemma_u64_bytes(u: u64)
    ensures
        ((u >> 56u64) as u8 as u64) << 56u64 | ((u >> 48u64) as u8 as u64) << 48u64 | ((u
            >> 40u64) as u8 as u64) << 40u64 | ((u >> 32u64) as u8 as u64) << 32u64 | ((u
            >> 24u64) as u8 as u64) << 24u64 | ((u >> 16u64) as u8 as u64) << 16u64 | ((u
            >> 8u64) as u8 as u64) << 8u64 | ((u >> 0u64) as u8 as u64) == u,
{
    assert(((u >> 56u64) as u8 as u64) << 56u64 | ((u >> 48u64) as u8 as u64) << 48u64 | ((u
        >> 40u64) as u8 as u64) << 40u64 | ((u >> 32u64) as u8 as u64) << 32u64 | ((u
        >> 24u64) as u8 as u64) << 24u64 | ((u >> 16u64) as u8 as u64) << 16u64 | ((u
        >> 8u64) as u8 as u64) << 8u64 | ((u >> 0u64) as u8 as u64) == u) by (bit_vector);
}

/// The encoding of any integer has eight bytes and decodes back to it.
pub proof fn lemma_be_round_trip(n: i64)
    ensures
        be_bytes(n).len() == 8,
        be_value(be_bytes(n)) == n,
{
    let u = n as u64;
    lemma_u64_bytes(u);
    let b = be_bytes(n);
    assert(b[0] == (u >> 56u64) as u8);
    assert(b[7] == (u >> 0u64) as u8);
    assert((n as u64) as i64 == n) by (bit_vector);
}

/// The eight big-endian bytes of `n`.
pub fn i64_to_be_bytes(n: i64) -> (r: Vec<u8>)
    ensures
        r@ == be_bytes(n),
{
    let u: u64 = n as u64;
    let mut r: Vec<u8> = Vec::with_capacity(8);
    let mut i: usize = 0;
    while i < 8
        invariant
            i <= 8,
            u == n as u64,
            r@.len() == i,
            forall|j: int| 0 <= j < i ==> r@[j] == be_byte(n, j),
        decreases 8 - i,
    {
        let shift: u64 = 56 - 8 * (i as u64);
        r.push((u >> shift) as u8);
        i = i + 1;
    }
    assert(r@ =~= be_bytes(n));
    r
}

} // verus!
