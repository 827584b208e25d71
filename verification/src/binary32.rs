//! Single-precision bit patterns of fractions.
//!
//! The library carries every sound parameter as the 32 bits of an IEEE 754 single-precision
//! number. Parameters that are written down in decimal are turned into those bits here, and so are
//! other fractions.

use vstd::arithmetic::power2::{lemma_pow2_unfold, pow2};
use vstd::prelude::*;

verus! {

/// 1.0
pub const BITS_ONE: u32 = 0x3F80_0000;

/// 0.5
pub const BITS_HALF: u32 = 0x3F00_0000;

/// 440.0
pub const BITS_CONCERT_A: u32 = 0x43DC_0000;

/// The least number of doublings that bring `n / den` up to 2^23.
pub open spec fn doublings(n: nat, den: nat) -> nat
    decreases 0x100_0000 * den - n,
{
    if n == 0 || n >= 0x80_0000 * den {
        0
    } else {
        1 + doublings(2 * n, den)
    }
}

/// The integer nearest to `num / den`; of two equally near, the even one.
pub open spec fn round_half_even(num: nat, den: nat) -> nat {
    let q = num / den;
    let r = num % den;
    if 2 * r < den || (2 * r == den && q % 2 == 0) {
        q
    } else {
        q + 1
    }
}

/// The 24-bit significand of `n / den`.
pub open spec fn significand(n: nat, den: nat) -> nat {
    round_half_even(n * pow2(doublings(n, den)), den)
}

/// The bits of the single-precision number nearest to `n / den`: exponent and significand. The
/// significand's leading one adds itself to the exponent field.
pub open spec fn ratio_bits(n: nat, den: nat) -> int {
    if n == 0 {
        0
    } else {
        (149 - doublings(n, den)) * 0x80_0000 + significand(n, den)
    }
}

/// The bits of the single-precision number nearest to `k` ten-thousandths.
pub open spec fn binary32_bits(k: int) -> u32 {
    if k < 0 {
        (0x8000_0000 + ratio_bits((-k) as nat, 10_000)) as u32
    } else {
        ratio_bits(k as nat, 10_000) as u32
    }
}

/// Rounding is off by at most one half.
pub proof fn rounding_error(num: nat, den: nat)
    requires
        den > 0,
    ensures
        2 * (round_half_even(num, den) * den - num) <= den,
        2 * (num - round_half_even(num, den) * den) <= den,
        num / den <= round_half_even(num, den) <= num / den + 1,
{
    let q = num / den;
    let r = num % den;
    vstd::arithmetic::div_mod::lemma_fundamental_div_mod(num as int, den as int);
    assert(den * q == q * den) by (nonlinear_arith);
    assert((q + 1) * den == q * den + den) by (nonlinear_arith);
}

proof fn doublings_bound(n: nat, den: nat, d: nat)
    requires
        0 < n,
        n * pow2(d) >= 0x80_0000 * den,
    ensures
        doublings(n, den) <= d,
    decreases d,
{
    if n < 0x80_0000 * den {
        if d == 0 {
            assert(pow2(0) == 1) by {
                vstd::arithmetic::power2::lemma2_to64();
            }
            assert(n * pow2(0) == n) by (nonlinear_arith)
                requires
                    pow2(0) == 1,
            ;
        } else {
            lemma_pow2_unfold(d);
            let half = pow2((d - 1) as nat);
            assert((2 * n) * half == n * pow2(d)) by (nonlinear_arith)
                requires
                    pow2(d) == 2 * half,
            ;
            doublings_bound(2 * n, den, (d - 1) as nat);
        }
    }
}

/// The doublings bring `n / den` between 2^23 and 2^24.
proof fn doublings_land(n: nat, den: nat)
    requires
        0 < n < 0x100_0000 * den,
    ensures
        0x80_0000 * den <= n * pow2(doublings(n, den)) < 0x100_0000 * den,
    decreases 0x100_0000 * den - n,
{
    if n >= 0x80_0000 * den {
        assert(pow2(0) == 1) by {
            vstd::arithmetic::power2::lemma2_to64();
        }
        assert(n * pow2(0) == n) by (nonlinear_arith)
            requires
                pow2(0) == 1,
        ;
    } else {
        doublings_land(2 * n, den);
        let d = doublings(2 * n, den);
        lemma_pow2_unfold(d + 1);
        assert(n * pow2(d + 1) == (2 * n) * pow2(d)) by (nonlinear_arith)
            requires
                pow2(d + 1) == 2 * pow2(d),
        ;
    }
}

/// The bits of a fraction stand for the single-precision number nearest to it: with `d` doublings,
/// the significand `q` stands for `q / 2^d`, has its full 24 bits (2^24 itself carries into the
/// exponent), and `n / den * 2^d` differs from `q` by at most one half.
pub proof fn ratio_is_nearest(n: nat, den: nat)
    requires
        0 < n < 0x100_0000 * den,
        0 < den <= 10_000,
    ensures
        ({
            let d = doublings(n, den);
            let q = significand(n, den);
            &&& d <= 37
            &&& 0x80_0000 * den <= n * pow2(d) < 0x100_0000 * den
            &&& 0x80_0000 <= q <= 0x100_0000
            &&& 2 * (n * pow2(d) - q * den) <= den
            &&& 2 * (q * den - n * pow2(d)) <= den
            &&& ratio_bits(n, den) == (149 - d) * 0x80_0000 + q
        }),
{
    vstd::arithmetic::power2::lemma2_to64_rest();
    assert(n * pow2(37) >= 0x80_0000 * den) by (nonlinear_arith)
        requires
            n > 0,
            den <= 10_000,
            pow2(37) == 0x20_0000_0000,
    ;
    doublings_bound(n, den, 37);
    doublings_land(n, den);
    let num = n * pow2(doublings(n, den));
    rounding_error(num, den);
    assert(0x80_0000 <= num / den) by {
        vstd::arithmetic::div_mod::lemma_div_is_ordered(
            0x80_0000 * den as int,
            num as int,
            den as int,
        );
        vstd::arithmetic::div_mod::lemma_div_multiples_vanish(0x80_0000, den as int);
    }
    assert(num / den < 0x100_0000) by {
        vstd::arithmetic::div_mod::lemma_multiply_divide_lt(
            num as int,
            den as int,
            0x100_0000,
        );
    }
}

/// The bits of a decimal number stand for the single-precision number nearest to it.
pub proof fn binary32_is_nearest(k: int)
    requires
        -0x8000_0000 <= k <= 0x8000_0000,
        k != 0,
    ensures
        ({
            let n: nat = if k < 0 {
                (-k) as nat
            } else {
                k as nat
            };
            let d = doublings(n, 10_000);
            let q = significand(n, 10_000);
            &&& 0x80_0000 <= q <= 0x100_0000
            &&& -10_000 <= 2 * (n * pow2(d) - q * 10_000) <= 10_000
            &&& d <= 37
            &&& binary32_bits(k) == (if k < 0 {
                0x8000_0000int
            } else {
                0
            }) + (149 - d) * 0x80_0000 + q
        }),
{
    let n: nat = if k < 0 {
        (-k) as nat
    } else {
        k as nat
    };
    ratio_is_nearest(n, 10_000);
}

/// Numbers of opposite sign differ in the top bit only.
pub proof fn binary32_sign(k: int)
    requires
        0 < k <= 0x8000_0000,
    ensures
        binary32_bits(-k) == binary32_bits(k) + 0x8000_0000,
{
    binary32_is_nearest(k);
    binary32_is_nearest(-k);
}

/// The significand of `n / den` and the number of doublings that it takes.
pub fn ratio(n: u64, den: u64) -> (parts: (u64, u32))
    requires
        0 < n < 0x100_0000 * den,
        0 < den <= 10_000,
    ensures
        parts.0 == significand(n as nat, den as nat),
        parts.1 == doublings(n as nat, den as nat),
        0x80_0000 <= parts.0 <= 0x100_0000,
        parts.1 <= 37,
{
    let mut num: u64 = n;
    let mut d: u32 = 0;
    proof {
        ratio_is_nearest(n as nat, den as nat);
        vstd::arithmetic::power2::lemma2_to64();
        assert(n * pow2(0) == n) by (nonlinear_arith)
            requires
                pow2(0) == 1,
        ;
    }
    while num < 0x80_0000 * den
        invariant
            0 < n < 0x100_0000 * den,
            0 < den <= 10_000,
            num == n * pow2(d as nat),
            0 < num < 0x100_0000 * den,
            d + doublings(num as nat, den as nat) == doublings(n as nat, den as nat),
            doublings(n as nat, den as nat) <= 37,
        decreases 0x100_0000 * den - num,
    {
        proof {
            lemma_pow2_unfold((d + 1) as nat);
            assert(n * pow2((d + 1) as nat) == 2 * (n * pow2(d as nat))) by (nonlinear_arith)
                requires
                    pow2((d + 1) as nat) == 2 * pow2(d as nat),
            ;
        }
        num = num * 2;
        d = d + 1;
    }
    let q: u64 = num / den;
    let r: u64 = num % den;
    let rounded: u64 = if 2 * r < den || (2 * r == den && q % 2 == 0) {
        q
    } else {
        q + 1
    };
    proof {
        assert(d == doublings(n as nat, den as nat));
        assert(rounded == significand(n as nat, den as nat));
    }
    (rounded, d)
}

/// The bits of the single-precision number nearest to `k` ten-thousandths.
pub fn binary32(k: i32) -> (bits: u32)
    ensures
        bits == binary32_bits(k as int),
{
    if k == 0 {
        return 0;
    }
    let n: u64 = if k < 0 {
        (-(k as i64)) as u64
    } else {
        k as u64
    };
    let (q, d) = ratio(n, 10_000);
    proof {
        binary32_is_nearest(k as int);
    }
    let sign: u32 = if k < 0 {
        0x8000_0000
    } else {
        0
    };
    sign + (149 - d) * 0x80_0000 + q as u32
}

/// Of two integers equally near, the even one is taken; a number that is whole is kept.
pub proof fn ties_go_to_even(num: nat, den: nat, q: nat)
    requires
        den > 0,
    ensures
        2 * num == (2 * q + 1) * den ==> round_half_even(num, den) % 2 == 0,
        num == q * den ==> round_half_even(num, den) == q,
        q * den <= num && 2 * num < (2 * q + 1) * den ==> round_half_even(num, den) == q,
        (2 * q + 1) * den < 2 * num && num <= (q + 1) * den ==> round_half_even(num, den) == q + 1,
{
    if 2 * num == (2 * q + 1) * den || num == q * den || (q * den <= num && 2 * num < (2 * q + 1)
        * den) || ((2 * q + 1) * den < 2 * num && num < (q + 1) * den) {
        let r = num - q * den;
        assert(2 * r >= 0 && r < den) by (nonlinear_arith)
            requires
                r == num - q * den,
                den > 0,
                2 * num == (2 * q + 1) * den || num == q * den || (q * den <= num && 2 * num < (2
                    * q + 1) * den) || ((2 * q + 1) * den < 2 * num && num < (q + 1) * den),
        ;
        vstd::arithmetic::div_mod::lemma_fundamental_div_mod_converse(
            num as int,
            den as int,
            q as int,
            r,
        );
        assert(2 * r - den == 2 * num - (2 * q + 1) * den) by (nonlinear_arith)
            requires
                r == num - q * den,
        ;
    } else if num == (q + 1) * den {
        vstd::arithmetic::div_mod::lemma_fundamental_div_mod_converse(
            num as int,
            den as int,
            q as int + 1,
            0,
        );
    }
}

/// If `q` has 24 bits and is nearer to `k / 10000 * 2^d` than any other integer, the bits of `k`
/// ten-thousandths are those of `q / 2^d`: the exponent 150 - `d` and the significand `q` without
/// its leading one. The negative number has the top bit set as well, and zero has no bit set.
pub proof fn decimal_bits(k: nat, d: nat, q: nat)
    requires
        0 < k < 0x8000_0000,
        0x80_0000 <= q <= 0xFF_FFFF,
        k * pow2(d) >= 0x80_0000 * 10_000,
        -10_000 < 2 * (k * pow2(d) - q * 10_000) < 10_000,
    ensures
        binary32_bits(k as int) == (150 - d) * 0x80_0000 + (q - 0x80_0000),
        binary32_bits(-k) == 0x8000_0000 + (150 - d) * 0x80_0000 + (q - 0x80_0000),
        binary32_bits(0) == 0,
{
    let x = k * pow2(d);
    let e = doublings(k, 10_000);
    ratio_is_nearest(k, 10_000);
    vstd::arithmetic::power2::lemma_pow2_pos(d);
    vstd::arithmetic::power2::lemma_pow2_pos(e);
    if e < d {
        let f = pow2((d - e) as nat);
        vstd::arithmetic::power2::lemma_pow2_adds(e, (d - e) as nat);
        lemma_pow2_unfold((d - e) as nat);
        vstd::arithmetic::power2::lemma_pow2_pos((d - e - 1) as nat);
        assert(x == k * pow2(e) * f) by (nonlinear_arith)
            requires
                x == k * pow2(d),
                pow2(d) == pow2(e) * f,
        ;
        assert(x >= 2 * (k * pow2(e))) by (nonlinear_arith)
            requires
                x == k * pow2(e) * f,
                f >= 2,
                k * pow2(e) >= 0,
        ;
    } else if d < e {
        let f = pow2((e - d) as nat);
        vstd::arithmetic::power2::lemma_pow2_adds(d, (e - d) as nat);
        lemma_pow2_unfold((e - d) as nat);
        vstd::arithmetic::power2::lemma_pow2_pos((e - d - 1) as nat);
        assert(k * pow2(e) == x * f) by (nonlinear_arith)
            requires
                x == k * pow2(d),
                pow2(e) == pow2(d) * f,
        ;
        assert(k * pow2(e) >= 2 * x) by (nonlinear_arith)
            requires
                k * pow2(e) == x * f,
                f >= 2,
                x >= 0,
        ;
    }
    assert(significand(k, 10_000) == q);
    binary32_sign(k as int);
}

} // verus!
