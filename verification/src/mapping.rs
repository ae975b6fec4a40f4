//! Size classes of the two-level segregated fit allocator.
//!
//! A size belongs to a first-level class `fl` and a second-level
//! subdivision `sl`. Sizes below 256 use a linear small regime with
//! a step of 4 bytes; larger sizes use 64 subdivisions of each power of two.
use vstd::prelude::*;
use vstd::arithmetic::power2::{
    pow2,
    lemma_pow2_pos,
    lemma_pow2_unfold,
    lemma_pow2_strictly_increases,
    lemma_pow2_adds,
    lemma2_to64,
};
use vstd::arithmetic::div_mod::{lemma_fundamental_div_mod, lemma_mod_multiples_basic};
use vstd::arithmetic::mul::{lemma_mul_inequality, lemma_mul_is_distributive_add};
use vstd::bits::{lemma_u64_shl_is_mul, lemma_u64_shr_is_div, lemma_u64_pow2_no_overflow};
use vstd::std_specs::bits::{u64_leading_zeros, axiom_u64_leading_zeros};

verus! {

/// Sentinel for "no node".
pub const NULL: u32 = 0xffff_ffffu32;
/// Number of bits that select a second-level subdivision.
pub const SL_BITS: u32 = 6;
/// Number of second-level subdivisions per first-level class.
pub const SL_COUNT: usize = 64;
/// Number of first-level classes.
pub const FL_COUNT: usize = 64;
/// Log2 of the smallest size handled by the large regime.
pub const MIN_FL: u32 = 8;
/// Offset between the bit position of a size and its first-level class.
pub const FL_OFFSET: u32 = 7;
/// Smallest block the allocator hands out or keeps.
pub const MIN_ALLOC: u64 = 16;
/// Log2 of the step between small-regime subdivisions.
pub const SMALL_STEP_SHIFT: u32 = 2;

/// Floor of the base-2 logarithm.
pub open spec fn log2_floor(x: nat) -> nat
    decreases x,
{
    if x < 2 {
        0
    } else {
        1 + log2_floor(x / 2)
    }
}

/// The (first-level, second-level) class of a size of at least `MIN_ALLOC`.
pub open spec fn bin_of(size: int) -> (int, int) {
    if size < 256 {
        (0, (size - 16) / 4)
    } else {
        let r = log2_floor(size as nat);
        (r - 7, (size - pow2(r)) / pow2((r - 6) as nat) as int)
    }
}

/// Smallest size that belongs to class `(fl, sl)`.
pub open spec fn bin_lower(fl: int, sl: int) -> int {
    if fl == 0 {
        16 + 4 * sl
    } else {
        pow2((fl + 7) as nat) + sl * pow2((fl + 1) as nat)
    }
}

/// Lexicographic order on classes.
pub open spec fn bin_le(a: (int, int), b: (int, int)) -> bool {
    a.0 < b.0 || (a.0 == b.0 && a.1 <= b.1)
}

/// The rounding step used when searching for a block of `size` bytes.
pub open spec fn search_step(size: int) -> int {
    if size < 256 {
        4
    } else {
        pow2((log2_floor(size as nat) - 6) as nat) as int
    }
}

/// The class searched for a request of `size` bytes: the class of the size
/// rounded up to the next class boundary (saturating at `u64::MAX`).
pub open spec fn search_bin(size: int) -> (int, int) {
    let s = if size < 16 { 16 } else { size };
    let t = s + search_step(s) - 1;
    bin_of(if t > u64::MAX { u64::MAX as int } else { t })
}

/// Flat index of a class in the bin table.
pub open spec fn flat_bin(b: (int, int)) -> int {
    b.0 * 64 + b.1
}

pub proof fn lemma_log2_bounds(x: nat)
    requires
        x >= 1,
    ensures
        pow2(log2_floor(x)) <= x < pow2(log2_floor(x) + 1),
    decreases x,
{
    lemma_pow2_unfold(log2_floor(x) + 1);
    if x < 2 {
        lemma2_to64();
    } else {
        lemma_log2_bounds(x / 2);
        lemma_pow2_unfold(log2_floor(x));
    }
}

pub proof fn lemma_log2_unique(x: nat, k: nat)
    requires
        pow2(k) <= x < pow2(k + 1),
    ensures
        log2_floor(x) == k,
{
    lemma_pow2_pos(k);
    lemma_log2_bounds(x);
    let r = log2_floor(x);
    if r < k {
        lemma_pow2_strictly_increases(r + 1, k);
        if r + 1 == k {
        }
        assert(pow2(r + 1) <= pow2(k)) by {
            if r + 1 < k {
                lemma_pow2_strictly_increases(r + 1, k);
            }
        }
    } else if r > k {
        assert(pow2(k + 1) <= pow2(r)) by {
            if k + 1 < r {
                lemma_pow2_strictly_increases(k + 1, r);
            }
        }
    }
}

/// Facts about the class of a size: it is a valid class and its lower
/// bound does not exceed the size, while the next class starts above it.
pub proof fn lemma_bin_of(size: int)
    requires
        16 <= size <= u64::MAX,
    ensures
        0 <= bin_of(size).0 <= 56,
        0 <= bin_of(size).1 < 64,
        bin_of(size).0 == 0 ==> bin_of(size).1 < 60,
        bin_lower(bin_of(size).0, bin_of(size).1) <= size,
        size < bin_lower(bin_of(size).0, bin_of(size).1 + 1),
{
    if size >= 256 {
        let r = log2_floor(size as nat);
        lemma_log2_bounds(size as nat);
        lemma2_to64();
        if r < 8 {
            if r + 1 < 8 {
                lemma_pow2_strictly_increases(r + 1, 8);
            }
        }
        if r > 63 {
            lemma_pow2_strictly_increases(64, r);
        }
        let step = pow2((r - 6) as nat);
        lemma_pow2_pos((r - 6) as nat);
        lemma_pow2_adds((r - 6) as nat, 6);
        lemma_pow2_adds((r - 6) as nat, 7);
        assert(pow2(r) == step * 64);
        assert(pow2(r + 1) == step * 128);
        let d = size - pow2(r);
        let q = d / (step as int);
        lemma_fundamental_div_mod(d, step as int);
        assert(0 <= d < step * 64);
        assert(0 <= q < 64) by (nonlinear_arith)
            requires
                d == step * q + (d % (step as int)),
                0 <= (d % (step as int)),
                0 <= d < step * 64,
                step > 0
        ;
        assert(q * step <= d < (q + 1) * step) by (nonlinear_arith)
            requires
                d == step * q + (d % (step as int)),
                0 <= (d % (step as int)) < step
        ;
        assert(bin_of(size) == (r - 7, q));
        assert(((r - 7) + 7) as nat == r);
        assert(((r - 7) + 1) as nat == (r - 6) as nat);
    } else {
        assert(bin_of(size) == (0int, (size - 16) / 4));
    }
}

/// The lower bound of classes grows with the class order.
pub proof fn lemma_bin_lower_monotone(a: (int, int), b: (int, int))
    requires
        0 <= a.0 <= 56,
        0 <= a.1 < 64,
        a.0 == 0 ==> a.1 < 60,
        0 <= b.0 <= 56,
        0 <= b.1 < 64,
        b.0 == 0 ==> b.1 < 60,
        bin_le(a, b),
    ensures
        bin_lower(a.0, a.1) <= bin_lower(b.0, b.1),
{
    lemma2_to64();
    if a.0 == b.0 {
        if a.0 > 0 {
            lemma_pow2_pos((a.0 + 1) as nat);
            lemma_mul_inequality(a.1, b.1, pow2((a.0 + 1) as nat) as int);
        }
    } else {
        // a.0 < b.0: everything in class a.0 is below 2^(a.0 + 8) <= lower(b)
        if a.0 == 0 {
            assert(bin_lower(a.0, a.1) <= 252);
            if b.0 > 1 {
                lemma_pow2_strictly_increases(8, (b.0 + 7) as nat);
            }
            assert(bin_lower(b.0, b.1) >= pow2((b.0 + 7) as nat));
            assert(pow2((b.0 + 7) as nat) >= 256);
        } else {
            let step = pow2((a.0 + 1) as nat) as int;
            lemma_pow2_pos((a.0 + 1) as nat);
            lemma_pow2_adds((a.0 + 1) as nat, 6);
            lemma_pow2_adds((a.0 + 1) as nat, 7);
            assert(((a.0 + 1) as nat + 6) == (a.0 + 7) as nat);
            assert(((a.0 + 1) as nat + 7) == (a.0 + 8) as nat);
            assert(a.1 * step <= 63 * step) by (nonlinear_arith)
                requires
                    a.1 <= 63,
                    step > 0
            ;
            assert(bin_lower(a.0, a.1) < pow2((a.0 + 8) as nat));
            if a.0 + 8 < b.0 + 7 {
                lemma_pow2_strictly_increases((a.0 + 8) as nat, (b.0 + 7) as nat);
            }
            lemma_pow2_pos((b.0 + 1) as nat);
            assert(b.1 * pow2((b.0 + 1) as nat) >= 0) by (nonlinear_arith)
                requires
                    b.1 >= 0,
                    pow2((b.0 + 1) as nat) > 0
            ;
        }
    }
}

/// Any block whose class is at least the class searched for a request of
/// `size` bytes holds at least `size` bytes, unless rounding saturated.
pub proof fn lemma_search_sound(size: int, x: int)
    requires
        0 <= size <= u64::MAX,
        16 <= x <= u64::MAX,
        (if size < 16 { 16 } else { size }) + search_step(if size < 16 { 16 } else { size }) - 1
            <= u64::MAX,
        bin_le(search_bin(size), bin_of(x)),
    ensures
        x >= size,
{
    let s = if size < 16 { 16 } else { size };
    let t = s + search_step(s) - 1;
    lemma_bin_of(t);
    lemma_bin_of(x);
    lemma_bin_lower_monotone(bin_of(t), bin_of(x));
    lemma2_to64();
    // the lower bound of the class of t is at least s
    if s < 256 {
        if t < 256 {
            assert(bin_of(t) == (0int, (t - 16) / 4));
        } else {
            lemma_log2_unique(t as nat, 8);
            assert(bin_of(t).0 == 1);
            assert(bin_lower(bin_of(t).0, bin_of(t).1) >= 256) by {
                lemma_pow2_pos(2);
            }
        }
    } else {
        let r = log2_floor(s as nat);
        lemma_log2_bounds(s as nat);
        if r < 8 {
            if r + 1 < 8 {
                lemma_pow2_strictly_increases(r + 1, 8);
            }
        }
        let step = pow2((r - 6) as nat) as int;
        lemma_pow2_pos((r - 6) as nat);
        lemma_pow2_adds((r - 6) as nat, 6);
        lemma_pow2_adds((r - 6) as nat, 7);
        if t < pow2(r + 1) {
            lemma_log2_unique(t as nat, r);
            let q = (t - pow2(r)) / step;
            lemma_fundamental_div_mod(t - pow2(r), step);
            assert(bin_of(t) == (r - 7, q));
            assert(((r - 7) + 7) as nat == r);
            assert(((r - 7) + 1) as nat == (r - 6) as nat);
            assert(q * step + (t - pow2(r)) % step == t - pow2(r)) by (nonlinear_arith)
                requires
                    t - pow2(r) == step * q + (t - pow2(r)) % step
            ;
            assert(bin_lower(r - 7, q) == pow2(r) + q * step);
        } else {
            lemma_log2_bounds(t as nat);
            let r2 = log2_floor(t as nat);
            if r2 < r + 1 {
                if r2 + 1 < r + 1 {
                    lemma_pow2_strictly_increases(r2 + 1, r + 1);
                }
            }
            assert(r2 >= r + 1);
            if r2 > r + 1 {
                lemma_pow2_strictly_increases(r + 1, r2);
            }
            assert(bin_lower(bin_of(t).0, bin_of(t).1) >= pow2(r2)) by {
                assert(bin_of(t).0 + 7 == r2);
                lemma_pow2_pos((bin_of(t).0 + 1) as nat);
                assert(bin_of(t).1 * pow2((bin_of(t).0 + 1) as nat) >= 0) by (nonlinear_arith)
                    requires
                        bin_of(t).1 >= 0,
                        pow2((bin_of(t).0 + 1) as nat) > 0
                ;
            }
        }
    }
}

/// The class searched for a request starts at a class boundary at or
/// above the request and less than one search step above it: the boundary
/// that the request rounds up to.
pub proof fn lemma_search_boundary(size: int)
    requires
        0 <= size <= u64::MAX,
        (if size < 16 { 16 } else { size }) + search_step(if size < 16 { 16 } else { size }) - 1
            <= u64::MAX,
    ensures
        ({
            let s = if size < 16 { 16 } else { size };
            let b = search_bin(size);
            &&& 0 <= b.0 <= 56
            &&& 0 <= b.1 < 64
            &&& b.0 == 0 ==> b.1 < 60
            &&& s <= bin_lower(b.0, b.1) < s + search_step(s)
        }),
{
    let s = if size < 16 { 16 } else { size };
    let t = s + search_step(s) - 1;
    lemma_bin_of(t);
    lemma2_to64();
    // the lower bound of the class of t is at least s
    if s < 256 {
        if t < 256 {
            assert(bin_of(t) == (0int, (t - 16) / 4));
        } else {
            lemma_log2_unique(t as nat, 8);
            assert(bin_of(t).0 == 1);
            assert(bin_lower(bin_of(t).0, bin_of(t).1) >= 256) by {
                lemma_pow2_pos(2);
            }
        }
    } else {
        let r = log2_floor(s as nat);
        lemma_log2_bounds(s as nat);
        if r < 8 {
            if r + 1 < 8 {
                lemma_pow2_strictly_increases(r + 1, 8);
            }
        }
        let step = pow2((r - 6) as nat) as int;
        lemma_pow2_pos((r - 6) as nat);
        lemma_pow2_adds((r - 6) as nat, 6);
        lemma_pow2_adds((r - 6) as nat, 7);
        if t < pow2(r + 1) {
            lemma_log2_unique(t as nat, r);
            let q = (t - pow2(r)) / step;
            lemma_fundamental_div_mod(t - pow2(r), step);
            assert(bin_of(t) == (r - 7, q));
            assert(((r - 7) + 7) as nat == r);
            assert(((r - 7) + 1) as nat == (r - 6) as nat);
            assert(q * step + (t - pow2(r)) % step == t - pow2(r)) by (nonlinear_arith)
                requires
                    t - pow2(r) == step * q + (t - pow2(r)) % step
            ;
            assert(bin_lower(r - 7, q) == pow2(r) + q * step);
        } else {
            lemma_log2_bounds(t as nat);
            let r2 = log2_floor(t as nat);
            if r2 < r + 1 {
                if r2 + 1 < r + 1 {
                    lemma_pow2_strictly_increases(r2 + 1, r + 1);
                }
            }
            assert(r2 >= r + 1);
            if r2 > r + 1 {
                lemma_pow2_strictly_increases(r + 1, r2);
            }
            assert(bin_lower(bin_of(t).0, bin_of(t).1) >= pow2(r2)) by {
                assert(bin_of(t).0 + 7 == r2);
                lemma_pow2_pos((bin_of(t).0 + 1) as nat);
                assert(bin_of(t).1 * pow2((bin_of(t).0 + 1) as nat) >= 0) by (nonlinear_arith)
                    requires
                        bin_of(t).1 >= 0,
                        pow2((bin_of(t).0 + 1) as nat) > 0
                ;
            }
        }
    }
}

proof fn lemma_top_bit(size: u64, r: u64)
    requires
        r < 64,
        (size >> r) & 1u64 != 0u64,
        r < 63 ==> (size >> (r + 1) as u64) == 0u64,
    ensures
        size >= (1u64 << r),
        r < 63 ==> size < (1u64 << (r + 1) as u64),
        size ^ (1u64 << r) == (size - (1u64 << r)) as u64,
{
    assert(size >= (1u64 << r)) by (bit_vector)
        requires
            r < 64,
            (size >> r) & 1u64 != 0u64
    ;
    assert(r < 63 ==> size < (1u64 << (r + 1) as u64)) by (bit_vector)
        requires
            r < 63 ==> (size >> (r + 1) as u64) == 0u64
    ;
    assert(size ^ (1u64 << r) == (size - (1u64 << r)) as u64) by (bit_vector)
        requires
            r < 64,
            (size >> r) & 1u64 != 0u64,
            r < 63 ==> (size >> (r + 1) as u64) == 0u64
    ;
}

/// Position of the highest set bit of a size of at least 256.
fn highest_bit(size: u64) -> (r: u32)
    requires
        size >= 256,
    ensures
        8 <= r <= 63,
        r as nat == log2_floor(size as nat),
        pow2(r as nat) <= size,
{
    let lz = size.leading_zeros();
    proof {
        axiom_u64_leading_zeros(size);
    }
    let r: u32 = 63 - lz;
    proof {
        let r64 = r as u64;
        assert((63 - lz) as u64 == r64);
        if r64 < 63 {
            assert((64 - lz) as u64 == (r64 + 1) as u64);
        }
        lemma_top_bit(size, r64);
        lemma_u64_pow2_no_overflow(r as nat);
        lemma_u64_shl_is_mul(1u64, r64);
        lemma2_to64();
        if r64 < 63 {
            lemma_u64_pow2_no_overflow((r + 1) as nat);
            lemma_u64_shl_is_mul(1u64, (r64 + 1) as u64);
            assert((r64 + 1) as u64 == r64 + 1);
        } else {
            assert(pow2(64) == 0x1_0000_0000_0000_0000);
        }
        lemma_log2_unique(size as nat, r as nat);
        if r < 8 {
            if r + 1 < 8 {
                lemma_pow2_strictly_increases((r + 1) as nat, 8);
            }
        }
    }
    r
}

/// Size → (fl, sl) for the exact bin where a free block of `size` belongs.
pub fn mapping_insert(size: u64) -> (r: (usize, usize))
    requires
        size >= MIN_ALLOC,
    ensures
        r.0 as int == bin_of(size as int).0,
        r.1 as int == bin_of(size as int).1,
        r.0 < FL_COUNT,
        r.1 < SL_COUNT,
{
    proof {
        lemma_bin_of(size as int);
    }
    if size < 256 {
        let d: u64 = size - MIN_ALLOC;
        let sl = d >> 2u64;
        assert(d >> 2u64 == d / 4u64) by (bit_vector);
        (0, sl as usize)
    } else {
        let raw_fl = highest_bit(size);
        let shift = raw_fl - SL_BITS;
        let top: u64 = 1u64 << raw_fl;
        proof {
            lemma_u64_pow2_no_overflow(raw_fl as nat);
            lemma_u64_shl_is_mul(1u64, raw_fl as u64);
            axiom_u64_leading_zeros(size);
            let r64 = raw_fl as u64;
            lemma_log2_bounds(size as nat);
            lemma2_to64();
            if r64 < 63 {
                lemma_u64_pow2_no_overflow((raw_fl + 1) as nat);
                lemma_u64_shl_is_mul(1u64, (r64 + 1) as u64);
            }
            assert((size >> r64) & 1u64 != 0u64) by (bit_vector)
                requires
                    size >= (1u64 << r64),
                    r64 < 63 ==> size < (1u64 << (r64 + 1) as u64),
                    r64 < 64
            ;
            assert(r64 < 63 ==> (size >> (r64 + 1) as u64) == 0u64) by (bit_vector)
                requires
                    r64 < 63 ==> size < (1u64 << (r64 + 1) as u64)
            ;
            lemma_top_bit(size, r64);
        }
        let sl = (size ^ top) >> (shift as u64);
        proof {
            lemma_u64_shr_is_div(size ^ top, shift as u64);
            assert(((raw_fl as nat) - 6) as nat == shift as nat);
        }
        ((raw_fl - FL_OFFSET) as usize, sl as usize)
    }
}

/// Size → (fl, sl) for a bin guaranteed to contain a block >= `size`.
pub fn mapping_search(size: u64) -> (r: (usize, usize))
    ensures
        r.0 as int == search_bin(size as int).0,
        r.1 as int == search_bin(size as int).1,
        r.0 < FL_COUNT,
        r.1 < SL_COUNT,
{
    let size = if size < MIN_ALLOC { MIN_ALLOC } else { size };
    let step: u64 = if size < 256 {
        4
    } else {
        let raw_fl = highest_bit(size);
        proof {
            lemma_u64_pow2_no_overflow((raw_fl - 6) as nat);
            lemma_u64_shl_is_mul(1u64, (raw_fl - 6) as u64);
        }
        1u64 << ((raw_fl - SL_BITS) as u64)
    };
    proof {
        lemma_pow2_pos(((log2_floor(size as nat) - 6) as nat));
    }
    let t = size.saturating_add(step - 1);
    mapping_insert(t)
}

/// Round `value` up to a multiple of the power of two `alignment`.
pub fn align_up(value: u64, alignment: u64) -> (r: u64)
    requires
        alignment > 0,
        is_pow2_u64(alignment),
        value + alignment - 1 <= u64::MAX,
    ensures
        r as int == round_up(value as int, alignment as int),
{
    let r = (value + (alignment - 1)) & !(alignment - 1);
    proof {
        lemma_align_up(value, alignment);
    }
    r
}

/// `a` is a power of two.
pub open spec fn is_pow2_u64(a: u64) -> bool {
    exists|k: nat| k < 64 && pow2(k) == a
}

/// Smallest multiple of `a` that is at least `v`.
pub open spec fn round_up(v: int, a: int) -> int {
    ((v + a - 1) / a) * a
}

proof fn lemma_align_up(value: u64, alignment: u64)
    requires
        alignment > 0,
        is_pow2_u64(alignment),
        value + alignment - 1 <= u64::MAX,
    ensures
        (((value + alignment - 1) as u64) & !((alignment - 1) as u64)) as int == round_up(
            value as int,
            alignment as int,
        ),
{
    let k = choose|k: nat| k < 64 && pow2(k) == alignment;
    let v = (value + alignment - 1) as u64;
    lemma_u64_pow2_no_overflow(k);
    lemma_u64_shl_is_mul(1u64, k as u64);
    let k64 = k as u64;
    assert(v & !(((1u64 << k64) - 1u64) as u64) == ((v >> k64) << k64)) by (bit_vector)
        requires
            k64 < 64
    ;
    lemma_u64_shr_is_div(v, k64);
    let q = v >> k64;
    assert(q * pow2(k) <= v) by {
        lemma_fundamental_div_mod(v as int, pow2(k) as int);
        lemma_pow2_pos(k);
        assert(v as int / pow2(k) as int * pow2(k) as int + v as int % pow2(k) as int == v) by (nonlinear_arith)
            requires
                v as int == pow2(k) as int * (v as int / pow2(k) as int) + v as int % pow2(k) as int
        ;
    }
    lemma_u64_shl_is_mul(q, k64);
}

/// Rounding a multiple of 16 up to a power-of-two alignment moves it by a
/// multiple of 16 that is smaller than the alignment, and not at all for
/// alignments up to 16.
pub proof fn lemma_round_up_aligned(off: int, a: int)
    requires
        off >= 0,
        off % 16 == 0,
        a > 0,
        exists|k: nat| k < 64 && pow2(k) == a,
    ensures
        off <= round_up(off, a) < off + a,
        (round_up(off, a) - off) % 16 == 0,
        round_up(off, a) % a == 0,
        a <= 16 ==> round_up(off, a) == off,
        round_up(off, a) > off ==> a >= 32 && round_up(off, a) - off <= a - 16,
{
    let k = choose|k: nat| k < 64 && pow2(k) == a;
    lemma2_to64();
    let q = (off + a - 1) / a;
    lemma_fundamental_div_mod(off + a - 1, a);
    let rem = (off + a - 1) % a;
    assert(q * a + rem == off + a - 1) by (nonlinear_arith)
        requires
            off + a - 1 == a * q + rem,
    ;
    assert(round_up(off, a) == q * a);
    assert(off <= q * a < off + a);
    if k <= 4 {
        // a divides 16, hence off
        assert(a == 1 || a == 2 || a == 4 || a == 8 || a == 16) by {
            if k == 0 {} else if k == 1 {} else if k == 2 {} else if k == 3 {} else {}
        }
        let m: int = off / 16;
        lemma_fundamental_div_mod(off, 16);
        assert(off == 16 * m);
        let c: int = 16int / a;
        assert(off == a * (c * m)) by (nonlinear_arith)
            requires
                off == 16 * m,
                c == 16int / a,
                a == 1 || a == 2 || a == 4 || a == 8 || a == 16,
        ;
        assert(q * a == off) by (nonlinear_arith)
            requires
                off <= q * a < off + a,
                off == a * (c * m),
                a > 0,
        ;
        lemma_mod_multiples_basic(q, a);
    } else {
        lemma_pow2_adds(4, (k - 4) as nat);
        let b = pow2((k - 4) as nat) as int;
        assert(a == 16 * b);
        lemma_pow2_pos((k - 4) as nat);
        assert(b >= 2) by {
            lemma_pow2_strictly_increases(0, (k - 4) as nat);
        }
        assert(q * a == (q * b) * 16) by (nonlinear_arith)
            requires
                a == 16 * b,
        ;
        lemma_mod_multiples_basic(q * b, 16);
        lemma_mod_multiples_basic(q, a);
        let m: int = off / 16;
        lemma_fundamental_div_mod(off, 16);
        let n: int = (q * a) / 16;
        lemma_fundamental_div_mod(q * a, 16);
        assert((q * a - off) % 16 == 0) by (nonlinear_arith)
            requires
                q * a == 16 * n,
                off == 16 * m,
        ;
        if q * a > off {
            assert(q * a - off <= a - 16) by (nonlinear_arith)
                requires
                    q * a == 16 * n,
                    off == 16 * m,
                    q * a < off + a,
                    a == 16 * b,
            ;
        }
    }
}

pub proof fn lemma_pow2_u64_pos(a: u64)
    requires
        is_pow2_u64(a),
    ensures
        a > 0,
{
    let k = choose|k: nat| k < 64 && pow2(k) == a;
    lemma_pow2_pos(k);
}


/// A class of the table: first level at most 56, second level below 64, and
/// below 60 in the small regime.
pub open spec fn valid_bin(c: (int, int)) -> bool {
    &&& 0 <= c.0 <= 56
    &&& 0 <= c.1 < 64
    &&& c.0 == 0 ==> c.1 < 60
}

/// The number of sizes in class `c`.
pub open spec fn bin_width(c: (int, int)) -> int {
    if c.0 == 0 {
        4
    } else {
        pow2((c.0 + 1) as nat) as int
    }
}

/// The class right after `c`.
pub open spec fn next_bin(c: (int, int)) -> (int, int) {
    if (c.0 == 0 && c.1 == 59) || (c.0 > 0 && c.1 == 63) {
        (c.0 + 1, 0)
    } else {
        (c.0, c.1 + 1)
    }
}

/// The class after `c` starts where `c` ends.
proof fn lemma_next_bin_lower(c: (int, int))
    requires
        valid_bin(c),
    ensures
        bin_lower(next_bin(c).0, next_bin(c).1) == bin_lower(c.0, c.1) + bin_width(c),
{
    lemma2_to64();
    if c.0 == 0 {
        if c.1 == 59 {
            assert(next_bin(c) == (1int, 0int));
            assert(bin_lower(1, 0) == pow2(8) + 0 * pow2(2));
        }
    } else {
        let w = pow2((c.0 + 1) as nat) as int;
        lemma_pow2_adds((c.0 + 1) as nat, 6);
        lemma_pow2_adds((c.0 + 1) as nat, 7);
        assert(((c.0 + 1) as nat + 6) == (c.0 + 7) as nat);
        assert(((c.0 + 1) as nat + 7) == (c.0 + 8) as nat);
        assert(pow2((c.0 + 7) as nat) == w * 64);
        assert(pow2((c.0 + 8) as nat) == w * 128);
        if c.1 == 63 {
            let n = (c.0 + 1, 0int);
            assert(next_bin(c) == n);
            assert(((n.0 + 7) as nat) == (c.0 + 8) as nat);
            assert(bin_lower(n.0, n.1) == pow2((c.0 + 8) as nat) + 0 * pow2((n.0 + 1) as nat));
            assert(bin_lower(c.0, c.1) == w * 64 + 63 * w);
        } else {
            assert(next_bin(c) == (c.0, c.1 + 1));
            assert((c.1 + 1) * w == c.1 * w + w) by (nonlinear_arith);
        }
    }
}

/// A class whose lower bound is at least `s` is at least one search step
/// of `s` wide.
proof fn lemma_width_covers_step(c: (int, int), s: int)
    requires
        valid_bin(c),
        16 <= s <= bin_lower(c.0, c.1),
    ensures
        bin_width(c) >= search_step(s),
{
    lemma2_to64();
    if c.0 == 0 {
        assert(bin_lower(c.0, c.1) < 256);
    } else {
        let w = pow2((c.0 + 1) as nat) as int;
        lemma_pow2_pos((c.0 + 1) as nat);
        lemma_pow2_adds((c.0 + 1) as nat, 6);
        lemma_pow2_adds((c.0 + 1) as nat, 7);
        assert(((c.0 + 1) as nat + 6) == (c.0 + 7) as nat);
        assert(((c.0 + 1) as nat + 7) == (c.0 + 8) as nat);
        assert(c.1 * w <= 63 * w) by (nonlinear_arith)
            requires
                c.1 <= 63,
                w > 0,
        ;
        assert(bin_lower(c.0, c.1) < pow2((c.0 + 8) as nat));
        if s < 256 {
            if c.0 + 1 > 2 {
                lemma_pow2_strictly_increases(2, (c.0 + 1) as nat);
            }
        } else {
            let r = log2_floor(s as nat);
            lemma_log2_bounds(s as nat);
            if r >= c.0 + 8 {
                if r > c.0 + 8 {
                    lemma_pow2_strictly_increases((c.0 + 8) as nat, r);
                }
                assert(false);
            }
            if r < 8 {
                if r + 1 < 8 {
                    lemma_pow2_strictly_increases(r + 1, 8);
                }
                assert(false);
            }
            if ((r - 6) as nat) < ((c.0 + 1) as nat) {
                lemma_pow2_strictly_increases((r - 6) as nat, (c.0 + 1) as nat);
            }
        }
    }
}

/// The class searched for a request is the least class whose every size
/// holds the request: no class that starts at or above the request comes
/// before it.
pub proof fn lemma_search_least(size: int, c: (int, int))
    requires
        0 <= size <= u64::MAX,
        (if size < 16 { 16 } else { size }) + search_step(if size < 16 { 16 } else { size }) - 1
            <= u64::MAX,
        valid_bin(c),
        size <= bin_lower(c.0, c.1),
    ensures
        bin_le(search_bin(size), c),
{
    let s = if size < 16 { 16 } else { size };
    let b = search_bin(size);
    lemma_search_boundary(size);
    lemma2_to64();
    assert(bin_lower(c.0, c.1) >= 16) by {
        if c.0 > 0 {
            lemma_pow2_pos((c.0 + 1) as nat);
            lemma_pow2_strictly_increases(4, (c.0 + 7) as nat);
            assert(c.1 * pow2((c.0 + 1) as nat) >= 0) by (nonlinear_arith)
                requires
                    c.1 >= 0,
                    pow2((c.0 + 1) as nat) > 0,
            ;
        }
    }
    if !bin_le(b, c) {
        let n = next_bin(c);
        assert(bin_le(n, b));
        assert(valid_bin(n));
        lemma_next_bin_lower(c);
        lemma_bin_lower_monotone(n, b);
        lemma_width_covers_step(c, s);
        assert(false);
    }
}

} // verus!
