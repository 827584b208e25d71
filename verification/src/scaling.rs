//! What a controller's value means: a place between the two ends of a parameter's range.
//!
//! The value over 127 is multiplied by the width of the range and the lower end is added, in
//! single-precision arithmetic: each of the three steps gives the nearest number that has 24
//! significant bits. The numbers are held as multiples of 2^-55, on which that arithmetic is exact
//! but for the rounding.

use crate::binary32::{
    binary32_bits, doublings, ratio, ratio_bits, ratio_is_nearest, round_half_even,
    rounding_error, significand, BITS_ONE,
};
use vstd::arithmetic::power2::{
    lemma2_to64, lemma2_to64_rest, lemma_pow2_adds, lemma_pow2_pos, lemma_pow2_strictly_increases,
    lemma_pow2_unfold, pow2,
};
use vstd::prelude::*;

verus! {

/// 2^55
pub const UNIT: i128 = 0x80_0000_0000_0000;

/// The least number of halvings that bring `x` below 2^24.
pub open spec fn halvings(x: nat) -> nat
    decreases x,
{
    if x < 0x100_0000 {
        0
    } else {
        1 + halvings(x / 2)
    }
}

/// The first 24 bits of `x`, rounded.
pub open spec fn top24(x: nat) -> nat {
    round_half_even(x, pow2(halvings(x)))
}

/// The number nearest to `x` that has 24 significant bits.
pub open spec fn rounded24(x: nat) -> nat {
    top24(x) * pow2(halvings(x))
}

/// The bits of the single-precision number nearest to `x` times 2^-55, for `x` from 2^23 on.
pub open spec fn magnitude_bits(x: nat) -> nat {
    (94 + halvings(x)) * 0x80_0000 + top24(x)
}

/// The bits of the single-precision number nearest to `x` times 2^-55.
pub open spec fn fixed_bits(x: int) -> u32 {
    if x == 0 {
        0
    } else if x < 0 {
        (0x8000_0000 + magnitude_bits((-x) as nat)) as u32
    } else {
        magnitude_bits(x as nat) as u32
    }
}

/// The single-precision number nearest to `value / 127`, as a multiple of 2^-30.
pub open spec fn unit_fixed(value: nat) -> nat {
    if value == 0 {
        0
    } else {
        significand(value, 127) * pow2((30 - doublings(value, 127)) as nat)
    }
}

/// The single-precision number nearest to `k` ten-thousandths, as a multiple of 2^-25.
pub open spec fn span_fixed(k: nat) -> nat {
    significand(k, 10_000) * pow2((25 - doublings(k, 10_000)) as nat)
}

/// The lower end and the product, the latter rounded, as multiples of 2^-55.
pub open spec fn scaled_fixed(value: nat, lo: int, hi: int) -> int {
    rounded24(unit_fixed(value) * span_fixed((hi - lo) as nat)) + lo / 10_000 * UNIT
}

/// The parameter that `value` stands for on a range between `lo` and `hi` ten-thousandths.
pub open spec fn scaled_bits(value: nat, lo: int, hi: int) -> u32 {
    fixed_bits(scaled_fixed(value, lo, hi))
}

/// The ranges that parameters have: from zero on, or in whole numbers around zero.
pub open spec fn is_range(lo: int, hi: int) -> bool {
    ||| lo == 0 && 2500 <= hi <= 20000_0000
    ||| lo == -hi && hi % 10_000 == 0 && 1_0000 <= hi <= 10000_0000
}

/// Single-precision numbers are ordered as these integers.
pub open spec fn order_key(bits: u32) -> int {
    if bits >= 0x8000_0000 {
        0x8000_0000 - bits
    } else {
        bits as int
    }
}

/// Whether one number comes before another.
pub fn less_than(a: u32, b: u32) -> (less: bool)
    ensures
        less == (order_key(a) < order_key(b)),
{
    let x: i64 = if a >= 0x8000_0000 {
        0x8000_0000 - a as i64
    } else {
        a as i64
    };
    let y: i64 = if b >= 0x8000_0000 {
        0x8000_0000 - b as i64
    } else {
        b as i64
    };
    x < y
}

proof fn halvings_bound(x: nat, d: nat)
    requires
        x < 0x100_0000 * pow2(d),
    ensures
        halvings(x) <= d,
    decreases d,
{
    if x >= 0x100_0000 {
        if d == 0 {
            lemma2_to64();
        } else {
            lemma_pow2_unfold(d);
            halvings_bound(x / 2, (d - 1) as nat);
        }
    }
}

/// The halvings bring `x` below 2^24 and, if there are any, not below 2^23.
proof fn halvings_land(x: nat)
    ensures
        x < 0x100_0000 * pow2(halvings(x)),
        halvings(x) > 0 ==> 0x80_0000 * pow2(halvings(x)) <= x,
    decreases x,
{
    lemma2_to64();
    if x >= 0x100_0000 {
        let h = halvings(x / 2);
        halvings_land(x / 2);
        lemma_pow2_unfold(h + 1);
        assert(pow2(h + 1) == 2 * pow2(h));
        if h == 0 {
            assert(x / 2 >= 0x80_0000);
        }
    }
}

/// A number that lies between 2^23 and 2^24 times 2^t takes `t` halvings.
proof fn halvings_are(x: nat, t: nat)
    requires
        0x80_0000 * pow2(t) <= x < 0x100_0000 * pow2(t),
    ensures
        halvings(x) == t,
    decreases t,
{
    lemma2_to64();
    if t > 0 {
        lemma_pow2_unfold(t);
        lemma_pow2_pos((t - 1) as nat);
        halvings_are(x / 2, (t - 1) as nat);
    }
}

/// Rounding to 24 bits: where the result lies, and that it is off by at most a 2^24th.
proof fn rounded24_error(x: nat)
    ensures
        top24(x) <= 0x100_0000,
        x >= 0x80_0000 ==> top24(x) >= 0x80_0000,
        0x100_0000 * (rounded24(x) - x) <= x,
        0x100_0000 * (x - rounded24(x)) <= x,
{
    let t = halvings(x);
    let p = pow2(t);
    lemma_pow2_pos(t);
    lemma2_to64();
    halvings_land(x);
    rounding_error(x, p);
    if t == 0 {
        assert(p == 1);
        assert(x / 1 == x && x % 1 == 0);
        assert(rounded24(x) == x) by (nonlinear_arith)
            requires
                rounded24(x) == top24(x) * p,
                p == 1,
                top24(x) == x,
        ;
    } else {
        assert(x / p < 0x100_0000) by {
            vstd::arithmetic::div_mod::lemma_multiply_divide_lt(x as int, p as int, 0x100_0000);
        }
        assert(x / p >= 0x80_0000) by {
            vstd::arithmetic::div_mod::lemma_div_is_ordered(
                0x80_0000 * p as int,
                x as int,
                p as int,
            );
            vstd::arithmetic::div_mod::lemma_div_multiples_vanish(0x80_0000, p as int);
        }
    }
}

/// Numbers that have no more than 24 significant bits are kept by rounding.
proof fn exact_is_kept(q: nat, t: nat)
    requires
        0x80_0000 <= q <= 0x100_0000,
    ensures
        rounded24(q * pow2(t)) == q * pow2(t),
        magnitude_bits(q * pow2(t)) == (94 + t) * 0x80_0000 + q,
{
    let x = q * pow2(t);
    lemma_pow2_unfold(t + 1);
    lemma_pow2_pos(t);
    let (h, top): (nat, nat) = if q < 0x100_0000 {
        (t, q)
    } else {
        (t + 1, 0x80_0000)
    };
    lemma_pow2_pos(h);
    let p = pow2(h);
    assert(x == top * p) by (nonlinear_arith)
        requires
            x == q * pow2(t),
            pow2(t + 1) == 2 * pow2(t),
            h == t && top == q && p == pow2(t) || h == t + 1 && top == 0x80_0000 && q == 0x100_0000
                && p == pow2(t + 1),
    ;
    assert(0x80_0000 * p <= top * p < 0x100_0000 * p) by (nonlinear_arith)
        requires
            0x80_0000 <= top < 0x100_0000,
            p > 0,
    ;
    halvings_are(x, h);
    vstd::arithmetic::div_mod::lemma_div_multiples_vanish(top as int, p as int);
    vstd::arithmetic::div_mod::lemma_mod_multiples_basic(top as int, p as int);
    assert(p * top == top * p) by (nonlinear_arith);
    assert(x / p == top && x % p == 0);
    assert(top24(x) == top);
}

/// The encoding keeps the order of the numbers that it stands for.
proof fn magnitude_is_ordered(x: nat, y: nat)
    requires
        x >= 0x80_0000,
        y >= 0x80_0000,
        rounded24(x) < rounded24(y),
    ensures
        magnitude_bits(x) < magnitude_bits(y),
{
    rounded24_error(x);
    rounded24_error(y);
    let (t, u) = (halvings(x), halvings(y));
    let (q, r) = (top24(x), top24(y));
    let (p, s) = (pow2(t), pow2(u));
    lemma_pow2_pos(t);
    lemma_pow2_pos(u);
    if t == u {
        assert(q < r) by (nonlinear_arith)
            requires
                q * p < r * p,
                p > 0,
        ;
    } else if t < u {
        if t + 1 == u && q == 0x100_0000 && r == 0x80_0000 {
            lemma_pow2_unfold(u);
            assert(q * p == r * s) by (nonlinear_arith)
                requires
                    q == 0x100_0000,
                    r == 0x80_0000,
                    s == 2 * p,
            ;
        }
    } else {
        lemma_pow2_adds(u, (t - u) as nat);
        lemma_pow2_unfold((t - u) as nat);
        let f = pow2((t - u) as nat);
        lemma_pow2_pos((t - u - 1) as nat);
        assert(f >= 2);
        assert(q * p >= r * s) by (nonlinear_arith)
            requires
                q >= 0x80_0000,
                r <= 0x100_0000,
                p == s * f,
                f >= 2,
                s > 0,
        ;
    }
}

proof fn magnitude_range(x: nat)
    requires
        0x80_0000 <= x < 0x100_0000 * pow2(56),
    ensures
        0 < magnitude_bits(x) < 0x8000_0000,
        halvings(x) <= 56,
{
    halvings_bound(x, 56);
    rounded24_error(x);
}

/// `pow2` between two of its values.
proof fn exponent_between(d: nat, lo: nat, hi: nat)
    requires
        lo <= hi,
    ensures
        pow2(lo) <= pow2(d) ==> lo <= d,
        pow2(d) < pow2(hi + 1) ==> d <= hi,
{
    if d < lo {
        lemma_pow2_strictly_increases(d, lo);
    }
    if hi + 1 < d {
        lemma_pow2_strictly_increases(hi + 1, d);
    }
}

/// `value / 127` as a multiple of 2^-30 is off by at most half a step of its 24 bits.
proof fn unit_error(value: nat)
    requires
        value <= 255,
    ensures
        value > 0 ==> 22 <= doublings(value, 127) <= 30,
        value > 0 ==> unit_fixed(value) >= 0x80_0000,
        value <= 127 ==> -8128 <= value * 0x4000_0000 - 127 * unit_fixed(value) <= 8128,
        unit_fixed(value) <= 0x1_0000_0000,
{
    lemma2_to64();
    lemma2_to64_rest();
    if value > 0 {
        ratio_is_nearest(value, 127);
        let d = doublings(value, 127);
        let q = significand(value, 127);
        let p = pow2(d);
        assert(0x20_0000 < p < 0x8000_0000 && (value <= 127 ==> p >= 0x80_0000))
            by (nonlinear_arith)
            requires
                1 <= value <= 255,
                0x80_0000 * 127 <= value * p < 0x100_0000 * 127,
        ;
        exponent_between(d, 21, 30);
        assert(d != 21);
        exponent_between(d, 23, 30);
        let e = (30 - d) as nat;
        let f = pow2(e);
        lemma_pow2_adds(d, e);
        assert(p * f == 0x4000_0000);
        lemma_pow2_pos(e);
        assert(unit_fixed(value) == q * f);
        assert(q * f >= 0x80_0000) by (nonlinear_arith)
            requires
                q >= 0x80_0000,
                f > 0,
        ;
        assert(f <= 0x100) by {
            exponent_between(e, 0, 8);
            if e < 8 {
                lemma_pow2_strictly_increases(e, 8);
            }
        }
        assert(q * f <= 0x1_0000_0000) by (nonlinear_arith)
            requires
                q <= 0x100_0000,
                0 < f <= 0x100,
        ;
        if value <= 127 {
            assert(f <= 0x80) by {
                if e < 7 {
                    lemma_pow2_strictly_increases(e, 7);
                }
            }
            assert(-8128 <= value * 0x4000_0000 - 127 * (q * f) <= 8128) by (nonlinear_arith)
                requires
                    p * f == 0x4000_0000,
                    -127 <= 2 * (value * p - q * 127) <= 127,
                    0 < f <= 0x80,
            ;
        }
    }
}

/// The width of a range as a multiple of 2^-25.
proof fn span_size(k: nat)
    requires
        2500 <= k <= 20000_0000,
    ensures
        9 <= doublings(k, 10_000) <= 25,
        0x80_0000 <= significand(k, 10_000) <= 0x100_0000,
        0x80_0000 <= span_fixed(k) <= 0x100_0000_0000,
        k % 10_000 == 0 ==> span_fixed(k) == k / 10_000 * 0x200_0000,
{
    lemma2_to64();
    lemma2_to64_rest();
    ratio_is_nearest(k, 10_000);
    let d = doublings(k, 10_000);
    let q = significand(k, 10_000);
    let p = pow2(d);
    assert(0x100 < p < 0x400_0000) by (nonlinear_arith)
        requires
            2500 <= k <= 20000_0000,
            0x80_0000 * 10_000 <= k * p < 0x100_0000 * 10_000,
    ;
    exponent_between(d, 8, 25);
    assert(d != 8);
    let e = (25 - d) as nat;
    let f = pow2(e);
    lemma_pow2_adds(d, e);
    assert(p * f == 0x200_0000);
    lemma_pow2_pos(e);
    assert(f <= 0x1_0000) by {
        if e < 16 {
            lemma_pow2_strictly_increases(e, 16);
        }
    }
    assert(0x80_0000 <= q * f <= 0x100_0000_0000) by (nonlinear_arith)
        requires
            0x80_0000 <= q <= 0x100_0000,
            0 < f <= 0x1_0000,
    ;
    if k % 10_000 == 0 {
        let h = k / 10_000;
        whole_significand(h, p);
        assert(k * p == h * 10_000 * p) by (nonlinear_arith)
            requires
                k == h * 10_000,
        ;
        assert(q == h * p);
        assert(q * f == h * 0x200_0000) by (nonlinear_arith)
            requires
                q == h * p,
                p * f == 0x200_0000,
        ;
    }
}

proof fn whole_significand(h: nat, p: nat)
    ensures
        round_half_even(h * 10_000 * p, 10_000) == h * p,
{
    let x = (h * p) as int;
    assert(h * 10_000 * p == x * 10_000) by (nonlinear_arith)
        requires
            x == h * p,
    ;
    vstd::arithmetic::div_mod::lemma_div_multiples_vanish(x, 10_000);
    vstd::arithmetic::div_mod::lemma_mod_multiples_basic(x, 10_000);
}

/// What is known of every place on a range: it is zero or large enough to be encoded.
proof fn scaled_size(value: nat, lo: int, hi: int)
    requires
        value <= 255,
        is_range(lo, hi),
    ensures
        ({
            let n = unit_fixed(value);
            let r = span_fixed((hi - lo) as nat);
            let low = -(lo / 10_000) * UNIT;
            let x = scaled_fixed(value, lo, hi);
            &&& 0x80_0000 <= r <= 0x100_0000_0000
            &&& n <= 0x1_0000_0000
            &&& n * r <= 0x100_0000_0000_0000_0000
            &&& rounded24(n * r) <= 0x200_0000_0000_0000_0000
            &&& low == 0 || low == r * 0x2000_0000
            &&& 0 <= low <= 10_000 * UNIT
            &&& x == rounded24(n * r) - low
            &&& x == 0 || x >= 0x80_0000 || x <= -0x80_0000
        }),
{
    lemma2_to64();
    lemma2_to64_rest();
    let k = (hi - lo) as nat;
    unit_error(value);
    span_size(k);
    let n = unit_fixed(value);
    let r = span_fixed(k);
    let product = n * r;
    let low = -(lo / 10_000) * UNIT;
    assert(product <= 0x100_0000_0000_0000_0000) by (nonlinear_arith)
        requires
            n <= 0x1_0000_0000,
            r <= 0x100_0000_0000,
            product == n * r,
    ;
    rounded24_error(product);
    if lo != 0 {
        let h = hi / 10_000;
        assert(k == 2 * hi && k % 10_000 == 0 && k / 10_000 == 2 * h);
        assert(lo / 10_000 == -h);
    }
    let rounded = rounded24(product);
    let m = low / 0x80_0000;
    assert(low == m * 0x80_0000);
    if value == 0 {
        assert(product == 0) by (nonlinear_arith)
            requires
                n == 0,
                product == n * r,
        ;
        assert(rounded == 0);
    } else {
        assert(product >= 0x4000_0000_0000) by (nonlinear_arith)
            requires
                n >= 0x80_0000,
                r >= 0x80_0000,
                product == n * r,
        ;
        let t = halvings(product);
        halvings_land(product);
        assert(pow2(t) > pow2(22));
        exponent_between(t, 22, 99);
        lemma_pow2_adds(23, (t - 23) as nat);
        let f = pow2((t - 23) as nat);
        let g = top24(product) * f;
        assert(rounded == 0x80_0000 * g) by (nonlinear_arith)
            requires
                rounded == top24(product) * pow2(t),
                pow2(t) == 0x80_0000 * f,
                g == top24(product) * f,
        ;
    }
}

/// What the bits of a place on a range stand for, as a multiple of 2^-55.
spec fn encoded(x: int) -> int {
    if x < 0 {
        -rounded24((-x) as nat)
    } else {
        rounded24(x as nat) as int
    }
}

/// The bits keep the order of the numbers that they stand for.
proof fn bits_are_ordered(x: int, y: int)
    requires
        x == 0 || 0x80_0000 <= x < 0x400_0000_0000_0000_0000 || -0x400_0000_0000_0000_0000 < x
            <= -0x80_0000,
        y == 0 || 0x80_0000 <= y < 0x400_0000_0000_0000_0000 || -0x400_0000_0000_0000_0000 < y
            <= -0x80_0000,
        encoded(x) < encoded(y),
    ensures
        order_key(fixed_bits(x)) < order_key(fixed_bits(y)),
{
    lemma2_to64_rest();
    if x != 0 {
        magnitude_range(if x < 0 {
            (-x) as nat
        } else {
            x as nat
        });
    }
    if y != 0 {
        magnitude_range(if y < 0 {
            (-y) as nat
        } else {
            y as nat
        });
    }
    assert(rounded24(0) == 0) by {
        rounded24_error(0);
    }
    if x > 0 && y > 0 {
        magnitude_is_ordered(x as nat, y as nat);
    } else if x < 0 && y < 0 {
        magnitude_is_ordered((-y) as nat, (-x) as nat);
    }
}

/// A larger value of a controller gives a larger parameter.
pub proof fn larger_value_is_larger(v1: nat, v2: nat, lo: int, hi: int)
    requires
        v1 < v2 <= 127,
        is_range(lo, hi),
    ensures
        order_key(scaled_bits(v1, lo, hi)) < order_key(scaled_bits(v2, lo, hi)),
{
    scaled_size(v1, lo, hi);
    scaled_size(v2, lo, hi);
    unit_error(v1);
    unit_error(v2);
    let (n1, n2) = (unit_fixed(v1), unit_fixed(v2));
    let r = span_fixed((hi - lo) as nat);
    let low = -(lo / 10_000) * UNIT;
    assert(n2 - n1 >= 8_454_000);
    assert(n2 <= 0x4000_0040 && n1 <= 0x4000_0040);
    rounded24_error(n1 * r);
    rounded24_error(n2 * r);
    let (p1, p2) = (rounded24(n1 * r), rounded24(n2 * r));
    let (x1, x2) = (p1 - low, p2 - low);
    assert(n2 * r - n1 * r >= 8_454_000 * r) by (nonlinear_arith)
        requires
            n2 - n1 >= 8_454_000,
            r > 0,
    ;
    assert(n1 * r <= 0x4000_0040 * r && n2 * r <= 0x4000_0040 * r) by (nonlinear_arith)
        requires
            n1 <= 0x4000_0040,
            n2 <= 0x4000_0040,
            r > 0,
    ;
    assert(p2 - p1 >= 8_453_000 * r);
    rounded24_error(if x1 < 0 {
        (-x1) as nat
    } else {
        x1 as nat
    });
    rounded24_error(if x2 < 0 {
        (-x2) as nat
    } else {
        x2 as nat
    });
    assert(encoded(x1) < encoded(x2));
    bits_are_ordered(x1, x2);
}

/// A whole number has the same bits as a multiple of 2^-55 and in ten-thousandths.
proof fn whole_number_bits(h: nat)
    requires
        1 <= h <= 20_000,
    ensures
        fixed_bits(h * UNIT) == binary32_bits((10_000 * h) as int),
        fixed_bits(-(h * UNIT)) == binary32_bits(-(10_000 * h) as int),
{
    lemma2_to64_rest();
    let k = 10_000 * h;
    span_size(k);
    ratio_is_nearest(k, 10_000);
    let d = doublings(k, 10_000);
    let q = significand(k, 10_000);
    whole_significand(h, pow2(d));
    assert(k * pow2(d) == h * 10_000 * pow2(d)) by (nonlinear_arith)
        requires
            k == 10_000 * h,
    ;
    assert(q == h * pow2(d));
    let e = (55 - d) as nat;
    lemma_pow2_adds(d, e);
    assert(q * pow2(e) == h * UNIT) by (nonlinear_arith)
        requires
            q == h * pow2(d),
            pow2(d) * pow2(e) == UNIT,
    ;
    exact_is_kept(q, e);
}

/// The lowest and the highest value of a controller give the ends of its parameter's range.
pub proof fn range_has_its_ends(lo: int, hi: int)
    requires
        is_range(lo, hi),
    ensures
        scaled_bits(0, lo, hi) == binary32_bits(lo),
        scaled_bits(127, lo, hi) == binary32_bits(hi),
{
    lemma2_to64();
    lemma2_to64_rest();
    scaled_size(0, lo, hi);
    let k = (hi - lo) as nat;
    span_size(k);
    let r = span_fixed(k);
    assert(unit_fixed(0) * r == 0) by (nonlinear_arith)
        requires
            unit_fixed(0) == 0,
    ;
    rounded24_error(0);
    let h = (hi / 10_000) as nat;
    if lo != 0 {
        assert(lo / 10_000 == -h && lo == -(10_000 * h) && hi == 10_000 * h);
        whole_number_bits(h);
    }
    whole_unit();
    let d = doublings(k, 10_000);
    let q = significand(k, 10_000);
    let e = (25 - d) as nat;
    lemma_pow2_adds(30, e);
    assert(0x4000_0000 * r == q * pow2(30 + e)) by (nonlinear_arith)
        requires
            r == q * pow2(e),
            pow2(30 + e) == 0x4000_0000 * pow2(e),
    ;
    exact_is_kept(q, 30 + e);
    ratio_is_nearest(k, 10_000);
}

proof fn whole_unit()
    ensures
        unit_fixed(127) == 0x4000_0000,
{
    lemma2_to64();
    unit_error(127);
    ratio_is_nearest(127, 127);
    let d = doublings(127, 127);
    let p = pow2(d);
    assert(0x80_0000 <= p < 0x100_0000) by (nonlinear_arith)
        requires
            0x80_0000 * 127 <= 127 * p < 0x100_0000 * 127,
    ;
    exponent_between(d, 23, 23);
    assert(d == 23);
    assert(significand(127, 127) == 0x80_0000);
    assert((30 - d) as nat == 7);
    assert(pow2(7) == 0x80);
    assert(unit_fixed(127) == 0x80_0000 * pow2(7));
}

/// 2^e
fn power(e: u32) -> (p: u128)
    requires
        e <= 60,
    ensures
        p == pow2(e as nat),
        0 < p <= 0x1000_0000_0000_0000,
{
    let mut p: u128 = 1;
    let mut i: u32 = 0;
    proof {
        lemma2_to64();
        lemma2_to64_rest();
    }
    while i < e
        invariant
            i <= e <= 60,
            p == pow2(i as nat),
            p <= 0x1000_0000_0000_0000,
        decreases e - i,
    {
        proof {
            lemma_pow2_unfold((i + 1) as nat);
            lemma2_to64_rest();
            if i + 1 < 60 {
                lemma_pow2_strictly_increases((i + 1) as nat, 60);
            }
        }
        p = p * 2;
        i = i + 1;
    }
    proof {
        lemma_pow2_pos(e as nat);
    }
    p
}

/// The first 24 bits of `x`, rounded, and the number of halvings that it takes to find them.
fn split24(x: u128) -> (parts: (u128, u32))
    requires
        x < 0x1_0000_0000_0000_0000_0000,
    ensures
        parts.0 == top24(x as nat),
        parts.1 == halvings(x as nat),
        parts.0 <= 0x100_0000,
        parts.1 <= 56,
{
    proof {
        lemma2_to64();
        lemma2_to64_rest();
        halvings_bound(x as nat, 56);
        rounded24_error(x as nat);
    }
    let mut y: u128 = x;
    let mut t: u32 = 0;
    while y >= 0x100_0000
        invariant
            t + halvings(y as nat) == halvings(x as nat),
            halvings(x as nat) <= 56,
        decreases y,
    {
        y = y / 2;
        t = t + 1;
    }
    let p: u128 = power(t);
    let q: u128 = x / p;
    let r: u128 = x % p;
    let top: u128 = if 2 * r < p || (2 * r == p && q % 2 == 0) {
        q
    } else {
        q + 1
    };
    assert(top == top24(x as nat));
    (top, t)
}

/// The parameter that `value` stands for on a range between `lo` and `hi` ten-thousandths.
pub fn scaled(value: u8, lo: i32, hi: i32) -> (bits: u32)
    requires
        is_range(lo as int, hi as int),
    ensures
        bits == scaled_bits(value as nat, lo as int, hi as int),
{
    proof {
        scaled_size(value as nat, lo as int, hi as int);
        unit_error(value as nat);
        span_size((hi - lo) as nat);
        lemma2_to64_rest();
    }
    let unit: u128 = if value == 0 {
        0
    } else {
        let (q, d) = ratio(value as u64, 127);
        let p: u128 = power(30 - d);
        assert(q * p == unit_fixed(value as nat));
        q as u128 * p
    };
    let (sq, sd) = ratio((hi - lo) as u64, 10_000);
    let sp: u128 = power(25 - sd);
    assert(sq * sp == span_fixed((hi - lo) as nat));
    let span: u128 = sq as u128 * sp;
    let (pq, pt) = split24(unit * span);
    let pp: u128 = power(pt);
    assert(pq * pp == rounded24((unit * span) as nat));
    let product: u128 = pq * pp;
    let low: u128 = ((-(lo as i64)) / 10_000) as u128 * 0x80_0000_0000_0000;
    assert(low == -(lo as int / 10_000) * UNIT);
    if product == low {
        return 0;
    }
    let negative: bool = product < low;
    let x: u128 = if negative {
        low - product
    } else {
        product - low
    };
    proof {
        magnitude_range(x as nat);
    }
    let (q, t) = split24(x);
    let magnitude: u32 = (94 + t) * 0x80_0000 + q as u32;
    if negative {
        0x8000_0000 + magnitude
    } else {
        magnitude
    }
}

/// The bits of `value / 127`.
pub open spec fn unit_bits(value: nat) -> u32 {
    scaled_bits(value, 0, 1_0000)
}

/// The bits of `value / 127`.
pub fn unit(value: u8) -> (bits: u32)
    ensures
        bits == unit_bits(value as nat),
{
    scaled(value, 0, 1_0000)
}

/// `value / 127` in one step is the same as on a range between 0 and 1.
pub proof fn unit_is_nearest(value: nat)
    requires
        0 < value <= 255,
    ensures
        unit_bits(value) == ratio_bits(value, 127),
{
    lemma2_to64();
    lemma2_to64_rest();
    unit_error(value);
    scaled_size(value, 0, 1_0000);
    span_size(1_0000);
    ratio_is_nearest(value, 127);
    let d = doublings(value, 127);
    let q = significand(value, 127);
    let e = (30 - d) as nat;
    let n = unit_fixed(value);
    lemma_pow2_adds(e, 25);
    assert(n * 0x200_0000 == q * pow2(e + 25)) by (nonlinear_arith)
        requires
            n == q * pow2(e),
            pow2(e + 25) == pow2(e) * 0x200_0000,
    ;
    exact_is_kept(q, e + 25);
    magnitude_range(n * 0x200_0000);
}

/// Between 0 and 1 the ends have the bits of those numbers.
pub proof fn unit_has_its_ends()
    ensures
        unit_bits(0) == 0,
        unit_bits(127) == BITS_ONE,
{
    range_has_its_ends(0, 1_0000);
    whole_number_bits(1);
    lemma2_to64();
    exact_is_kept(0x80_0000, 32);
    assert(0x80_0000 * pow2(32) == UNIT);
}

/// `bits` stand for no number.
pub open spec fn is_nan(bits: u32) -> bool {
    bits % 0x8000_0000 > 0x7F80_0000
}

/// The number held between 0 and 1; what is no number is kept.
pub open spec fn unit_clamped(bits: u32) -> u32 {
    if is_nan(bits) {
        bits
    } else if order_key(bits) < 0 {
        0
    } else if order_key(bits) > BITS_ONE {
        BITS_ONE
    } else {
        bits
    }
}

/// The number held between 0 and 1.
pub fn clamp_unit(bits: u32) -> (clamped: u32)
    ensures
        clamped == unit_clamped(bits),
{
    if bits % 0x8000_0000 > 0x7F80_0000 {
        bits
    } else if bits > 0x8000_0000 {
        0
    } else if bits < 0x8000_0000 && bits > BITS_ONE {
        BITS_ONE
    } else {
        bits
    }
}

/// A number that is held between 0 and 1 lies there and is the nearest that does; one that lies
/// there already is kept.
pub proof fn clamped_is_between(bits: u32)
    requires
        !is_nan(bits),
    ensures
        0 <= order_key(unit_clamped(bits)) <= order_key(BITS_ONE),
        0 <= order_key(bits) <= order_key(BITS_ONE) ==> unit_clamped(bits) == bits,
        unit_clamped(unit_clamped(bits)) == unit_clamped(bits),
{
}

/// The order of numbers: positive ones go by their bits, the negative of a number has the top bit
/// set and stands as far on the other side of zero, and both zeros are equal.
pub proof fn order_is_that_of_numbers(a: u32, b: u32)
    requires
        a < 0x8000_0000,
        b < 0x8000_0000,
    ensures
        order_key(a) < order_key(b) <==> a < b,
        order_key((0x8000_0000 + a) as u32) == -order_key(a),
        order_key((0x8000_0000 + a) as u32) <= order_key(b),
        order_key(0x8000_0000) == order_key(0),
{
}

/// Holding numbers between 0 and 1 keeps their order, and takes all that are below to 0 and all
/// that are above to 1. What is no number is kept.
pub proof fn clamping_keeps_the_order(a: u32, b: u32)
    ensures
        !is_nan(a) && !is_nan(b) && order_key(a) <= order_key(b) ==> order_key(unit_clamped(a))
            <= order_key(unit_clamped(b)),
        0x3F80_0000 < a <= 0x7F80_0000 ==> unit_clamped(a) == 0x3F80_0000,
        0x8000_0000 < a <= 0xFF80_0000 ==> unit_clamped(a) == 0,
        a <= 0x3F80_0000 ==> unit_clamped(a) == a,
        unit_clamped(0x8000_0000) == 0x8000_0000,
        is_nan(a) <==> 0x7F80_0000 < a < 0x8000_0000 || a > 0xFF80_0000,
        is_nan(a) ==> unit_clamped(a) == a,
{
}

} // verus!
