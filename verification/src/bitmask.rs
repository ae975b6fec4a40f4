//! Facts about single bits of 64-bit masks.
use vstd::prelude::*;
use vstd::std_specs::bits::{u64_trailing_zeros, axiom_u64_trailing_zeros};

verus! {

/// Bit `k` of `m` is set.
pub open spec fn bit(m: u64, k: int) -> bool {
    (m >> (k as u64)) & 1u64 == 1u64
}

pub proof fn lemma_bit_set(m: u64, s: u64, k: u64)
    requires
        s < 64,
        k < 64,
    ensures
        bit(m | (1u64 << s), k as int) == (k == s || bit(m, k as int)),
{
    assert(((m | (1u64 << s)) >> k) & 1u64 == 1u64 <==> (k == s || (m >> k) & 1u64 == 1u64))
        by (bit_vector)
        requires
            s < 64,
            k < 64,
    ;
}

pub proof fn lemma_bit_clear(m: u64, s: u64, k: u64)
    requires
        s < 64,
        k < 64,
    ensures
        bit(m & !(1u64 << s), k as int) == (k != s && bit(m, k as int)),
{
    assert(((m & !(1u64 << s)) >> k) & 1u64 == 1u64 <==> (k != s && (m >> k) & 1u64 == 1u64))
        by (bit_vector)
        requires
            s < 64,
            k < 64,
    ;
}

pub proof fn lemma_mask_from(m: u64, s: u64, k: u64)
    requires
        s < 64,
        k < 64,
    ensures
        bit(m & (!0u64 << s), k as int) == (k >= s && bit(m, k as int)),
{
    assert(((m & (!0u64 << s)) >> k) & 1u64 == 1u64 <==> (k >= s && (m >> k) & 1u64 == 1u64))
        by (bit_vector)
        requires
            s < 64,
            k < 64,
    ;
}

/// A mask is zero exactly when none of its 64 bits is set.
pub proof fn lemma_zero_iff_no_bits(m: u64)
    ensures
        m == 0 ==> forall|k: int| 0 <= k < 64 ==> !#[trigger] bit(m, k),
        m != 0 ==> 0 <= u64_trailing_zeros(m) < 64 && bit(m, u64_trailing_zeros(m) as int),
{
    if m == 0 {
        assert forall|k: int| 0 <= k < 64 implies !#[trigger] bit(m, k) by {
            let kk = k as u64;
            assert((0u64 >> kk) & 1u64 == 0u64) by (bit_vector);
        }
    } else {
        axiom_u64_trailing_zeros(m);
    }
}

/// The trailing zero count of a nonzero mask is its lowest set bit.
pub proof fn lemma_lowest_bit(m: u64)
    requires
        m != 0,
    ensures
        0 <= u64_trailing_zeros(m) < 64,
        bit(m, u64_trailing_zeros(m) as int),
        forall|k: int| 0 <= k < u64_trailing_zeros(m) ==> !#[trigger] bit(m, k),
{
    axiom_u64_trailing_zeros(m);
    assert forall|k: int| 0 <= k < u64_trailing_zeros(m) implies !#[trigger] bit(m, k) by {
        let kk = k as u64;
        assert((m >> kk) & 1u64 == 0u64);
    }
}

} // verus!
