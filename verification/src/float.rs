//! Integer-only operations on IEEE-754 binary64 bit patterns: the total
//! order of `f64::total_cmp`, conversion from `i64` (round to nearest, ties
//! to even, as `i as f64` does), conversion to `i64` (`f as i64`: truncation,
//! saturation, NaN to zero) and the integral test `f == f.trunc()`.

use vstd::prelude::*;
use vstd::arithmetic::power2::{pow2, lemma_pow2_unfold, lemma_pow2_pos, lemma2_to64};

verus! {


pub open spec fn p52() -> nat { 4503599627370496 }
pub open spec fn p53() -> nat { 9007199254740992 }
pub open spec fn p63() -> nat { 9223372036854775808 }
pub open spec fn p64() -> nat { 18446744073709551616 }

/// The key under which `f64::total_cmp` orders bit patterns (as unsigned integers).
pub open spec fn total_key(b: u64) -> nat {
    if b >= p63() { (p64() - 1 - b) as nat } else { (b + p63()) as nat }
}

/// The order key of a float's bits, as `total_cmp` compares them.
pub fn total_order_key(b: u64) -> (k: u64)
    ensures
        k == total_key(b),
{
    if b >= 9223372036854775808u64 {
        18446744073709551615u64 - b
    } else {
        b + 9223372036854775808u64
    }
}

/// Floor of the base-2 logarithm.
pub open spec fn log2(m: nat) -> nat
    decreases m,
{
    if m < 2 { 0 } else { 1 + log2(m / 2) }
}

proof fn lemma_log2_unique(m: nat, k: nat)
    requires
        pow2(k) <= m < pow2(k + 1),
    ensures
        log2(m) == k,
    decreases k,
{
    lemma_pow2_unfold(k + 1);
    if k == 0 {
        lemma2_to64();
        vstd::arithmetic::power2::lemma2_to64_rest();
    } else {
        lemma_pow2_unfold(k);
        lemma_pow2_pos((k - 1) as nat);
        assert(m >= 2);
        assert(pow2((k - 1) as nat) <= m / 2 < pow2(k));
        lemma_log2_unique(m / 2, (k - 1) as nat);
    }
}

/// The magnitude of an integer.
pub open spec fn abs_nat(i: int) -> nat {
    if i < 0 { (-i) as nat } else { i as nat }
}

/// The bits of `i as f64`: the binary64 value nearest to `i`, ties to even.
pub open spec fn int_to_float(i: int) -> nat {
    if i == 0 {
        0
    } else {
        let sign: nat = if i < 0 { p63() } else { 0 };
        let m = abs_nat(i);
        let p = log2(m);
        if p <= 52 {
            (sign + (p + 1023) * p52() + (m * pow2((52 - p) as nat) - p52())) as nat
        } else {
            let sh = (p - 52) as nat;
            let q = m / pow2(sh);
            let r = m % pow2(sh);
            let h = pow2((sh - 1) as nat);
            let q2: nat = if r > h || (r == h && q % 2 == 1) { q + 1 } else { q };
            if q2 == p53() {
                (sign + (p + 1 + 1023) * p52()) as nat
            } else {
                (sign + (p + 1023) * p52() + (q2 - p52())) as nat
            }
        }
    }
}

/// `pow2(k)` as a machine integer.
pub(crate) fn pow2_u64(k: u64) -> (r: u64)
    requires
        k < 64,
    ensures
        r == pow2(k as nat),
{
    let mut r: u64 = 1;
    let mut j: u64 = 0;
    proof {
        lemma2_to64();
        vstd::arithmetic::power2::lemma2_to64_rest();
    }
    while j < k
        invariant
            j <= k < 64,
            r == pow2(j as nat),
        decreases k - j,
    {
        proof {
            lemma_pow2_unfold((j + 1) as nat);
            vstd::arithmetic::power2::lemma_pow2_strictly_increases((j + 1) as nat, 64);
            lemma2_to64();
            vstd::arithmetic::power2::lemma2_to64_rest();
        }
        r = r * 2;
        j += 1;
    }
    r
}

/// The bits of `i as f64`.
pub fn int_to_float_bits(i: i64) -> (b: u64)
    ensures
        b == int_to_float(i as int),
{
    if i == 0 {
        return 0;
    }
    let neg = i < 0;
    let m: u64 = if neg {
        if i == i64::MIN { 9223372036854775808u64 } else { (-i) as u64 }
    } else {
        i as u64
    };
    assert(m == abs_nat(i as int));
    let sign: u64 = if neg { 9223372036854775808u64 } else { 0 };
    // Find p with 2^p <= m < 2^(p+1).
    let mut p: u64 = 0;
    let mut pw: u64 = 1;
    proof {
        lemma2_to64();
        vstd::arithmetic::power2::lemma2_to64_rest();
    }
    while pw <= m / 2
        invariant
            1 <= m <= p63(),
            pw == pow2(p as nat),
            1 <= pw <= m,
            p <= 63,
        decreases m - pw,
    {
        proof {
            lemma_pow2_unfold((p + 1) as nat);
            if p == 63 {
                lemma2_to64();
                vstd::arithmetic::power2::lemma2_to64_rest();
                assert(false);
            }
        }
        pw = pw * 2;
        p += 1;
    }
    proof {
        lemma_pow2_unfold((p + 1) as nat);
        lemma_log2_unique(m as nat, p as nat);
        lemma2_to64();
        vstd::arithmetic::power2::lemma2_to64_rest();
    }
    if p <= 52 {
        let scale = pow2_u64(52 - p);
        proof {
            vstd::arithmetic::power2::lemma_pow2_adds(p as nat, (52 - p) as nat);
            assert(pow2(p as nat) * pow2((52 - p) as nat) == p52());
            assert(m * scale < p53()) by (nonlinear_arith)
                requires
                    m < 2 * pw,
                    pw * scale == p52(),
                    p53() == 2 * p52(),
            ;
            assert(m * scale >= p52()) by (nonlinear_arith)
                requires
                    m >= pw,
                    pw * scale == p52(),
            ;
        }
        let mant = m * scale;
        sign + (p + 1023) * 4503599627370496u64 + (mant - 4503599627370496u64)
    } else {
        let sh = p - 52;
        let spw = pow2_u64(sh);
        let h = pow2_u64(sh - 1);
        proof {
            lemma_pow2_unfold(sh as nat);
            lemma_pow2_pos(sh as nat);
            vstd::arithmetic::power2::lemma_pow2_adds(52, sh as nat);
            assert(pow2(52) * pow2(sh as nat) == pw);
        }
        let q = m / spw;
        let r = m % spw;
        proof {
            assert(p52() <= q < p53()) by (nonlinear_arith)
                requires
                    pw <= m < 2 * pw,
                    p52() * spw == pw,
                    spw > 0,
                    q == m / spw,
                    p53() == 2 * p52(),
            ;
        }
        let q2 = if r > h || (r == h && q % 2 == 1) { q + 1 } else { q };
        if q2 == 9007199254740992u64 {
            sign + (p + 1 + 1023) * 4503599627370496u64
        } else {
            sign + (p + 1023) * 4503599627370496u64 + (q2 - 4503599627370496u64)
        }
    }
}

/// The biased exponent field of a float's bits.
pub open spec fn exp_field(b: u64) -> nat {
    ((b as nat) / p52()) % 2048
}

/// The fraction field of a float's bits.
pub open spec fn frac_field(b: u64) -> nat {
    (b as nat) % p52()
}

/// The value of `f as i64` for a float with bits `b`.
pub open spec fn float_to_int(b: u64) -> int {
    let e = exp_field(b);
    let f = frac_field(b);
    let neg = b >= p63();
    if e == 2047 && f != 0 {
        0
    } else if e >= 1023 + 63 {
        if neg { i64::MIN as int } else { i64::MAX as int }
    } else if e < 1023 {
        0
    } else {
        let m = p52() + f;
        let mag: int = if e >= 1075 { m * pow2((e - 1075) as nat) } else { m / pow2((1075 - e) as nat) } as int;
        if neg { -mag } else { mag }
    }
}

/// `f as i64` for a float with bits `b`.
pub fn float_bits_to_i64(b: u64) -> (r: i64)
    ensures
        r as int == float_to_int(b),
{
    let e = (b / 4503599627370496u64) % 2048;
    let f = b % 4503599627370496u64;
    let neg = b >= 9223372036854775808u64;
    if e == 2047 && f != 0 {
        0
    } else if e >= 1023 + 63 {
        if neg { i64::MIN } else { i64::MAX }
    } else if e < 1023 {
        0
    } else {
        let m = 4503599627370496u64 + f;
        proof {
            lemma2_to64();
            vstd::arithmetic::power2::lemma2_to64_rest();
        }
        let mag: u64 = if e >= 1075 {
            let s = pow2_u64(e - 1075);
            proof {
                vstd::arithmetic::power2::lemma_pow2_strictly_increases((e - 1075) as nat, 11);
                assert(m * s < p63()) by (nonlinear_arith)
                    requires
                        m < p53(),
                        s <= pow2(10),
                        pow2(10) == 1024,
                ;
            }
            m * s
        } else {
            let s = pow2_u64(1075 - e);
            proof {
                lemma_pow2_pos((1075 - e) as nat);
                assert(m / s <= m) by (nonlinear_arith)
                    requires s > 0,
                ;
            }
            m / s
        };
        if neg { -(mag as i64) } else { mag as i64 }
    }
}

/// Whether the float with bits `b` equals its truncation (`f == f.trunc()`).
pub open spec fn is_integral(b: u64) -> bool {
    let e = exp_field(b);
    let f = frac_field(b);
    if e == 2047 {
        f == 0
    } else if e == 0 {
        f == 0
    } else if e < 1023 {
        false
    } else if e >= 1075 {
        true
    } else {
        f % pow2((1075 - e) as nat) == 0
    }
}

/// Whether the float with bits `b` equals its truncation.
pub fn float_is_integral(b: u64) -> (r: bool)
    ensures
        r == is_integral(b),
{
    let e = (b / 4503599627370496u64) % 2048;
    let f = b % 4503599627370496u64;
    if e == 2047 {
        f == 0
    } else if e == 0 {
        f == 0
    } else if e < 1023 {
        false
    } else if e >= 1075 {
        true
    } else {
        let s = pow2_u64(1075 - e);
        proof { lemma_pow2_pos((1075 - e) as nat); }
        f % s == 0
    }
}

} // verus!
