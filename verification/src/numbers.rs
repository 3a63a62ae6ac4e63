//! What the bits of floating point numbers stand for, and what becomes of the
//! numbers.

use vstd::arithmetic::div_mod::lemma_fundamental_div_mod;
use vstd::arithmetic::div_mod::lemma_fundamental_div_mod_converse;
use vstd::arithmetic::power2::lemma2_to64;
use vstd::arithmetic::power2::lemma2_to64_rest;
use vstd::arithmetic::power2::lemma_pow2_adds;
use vstd::arithmetic::power2::lemma_pow2_pos;
use vstd::arithmetic::power2::lemma_pow2_strictly_increases;
use vstd::arithmetic::power2::pow2;
use vstd::prelude::*;

use crate::nearest::half_even;
use crate::nearest::lemma_half_even_is_near;
use crate::nearest::lemma_rounded_significand;
use crate::nearest::lemma_top_bit;
use crate::nearest::nearest;
use crate::nearest::nearest_double;
use crate::nearest::nearest_single;
use crate::nearest::rounded_significand;
use crate::nearest::top_bit;
use crate::single::exponent;
use crate::single::fits_i32;
use crate::single::lemma_fits;
use crate::single::lemma_truncated_is_integer;
use crate::single::significand;
use crate::single::toward_zero;
use crate::single::truncated;

verus! {

/// The number that single precision bits stand for, counted in the smallest
/// number that there is, which is 2^-149. (Infinities count as if their exponent
/// were an ordinary one.)
pub open spec fn single_value(bits: u32) -> int {
    let e = (bits as int / 0x80_0000) % 0x100;
    let f = bits as int % 0x80_0000;
    let magnitude = if e == 0 {
        f
    } else {
        (0x80_0000 + f) * pow2((e - 1) as nat)
    };
    if bits >= 0x8000_0000 {
        -magnitude
    } else {
        magnitude
    }
}

/// The number that double precision bits stand for, counted in the smallest
/// number that there is, which is 2^-1074.
pub open spec fn double_value(bits: u64) -> int {
    let e = (bits as int / 0x10_0000_0000_0000) % 0x800;
    let f = bits as int % 0x10_0000_0000_0000;
    let magnitude = if e == 0 {
        f
    } else {
        (0x10_0000_0000_0000 + f) * pow2((e - 1) as nat)
    };
    if bits >= 0x8000_0000_0000_0000 {
        -magnitude
    } else {
        magnitude
    }
}

/// `v` is the integer nearest to `n` among those that `digits` binary digits,
/// and zeros behind them, can write; halfway between two, the one whose last
/// digit is even. `k` is the position of the highest bit of `n`.
pub open spec fn rounds_to(n: int, k: nat, digits: nat, v: int) -> bool {
    if k < digits {
        v == n
    } else {
        let unit = pow2((k + 1 - digits) as nat) as int;
        &&& v % unit == 0
        &&& -unit <= 2 * (v - n) <= unit
        &&& (2 * (v - n) == unit || 2 * (v - n) == -unit) ==> (v / unit) % 2 == 0
    }
}

/// Rounding toward zero keeps the integer part, with its sign, and nothing else;
/// zero comes out without a sign.
pub proof fn lemma_truncated_value(bits: u32)
    requires
        bits as int / 0x80_0000 % 0x100 < 0xff,
    ensures
        single_value(truncated(bits)) % (pow2(149) as int) == 0,
        single_value(bits) >= 0 ==> single_value(truncated(bits)) <= single_value(bits)
            < single_value(truncated(bits)) + pow2(149),
        single_value(bits) <= 0 ==> single_value(truncated(bits)) - pow2(149) < single_value(bits)
            <= single_value(truncated(bits)),
        single_value(truncated(bits)) == 0 ==> truncated(bits) == 0,
{
    let e = exponent(bits);
    let m = significand(bits);
    let one = pow2(149) as int;
    lemma2_to64();
    lemma_pow2_pos(149);
    if e < 127 {
        assert(single_value(0u32) == 0);
        if e == 0 {
            lemma_pow2_strictly_increases(23, 149);
        } else {
            let p = pow2((e - 1) as nat) as int;
            lemma_pow2_pos((e - 1) as nat);
            if e - 1 < 125 {
                lemma_pow2_strictly_increases((e - 1) as nat, 125);
            }
            lemma_pow2_adds(24, 125);
            let top = pow2(125) as int;
            assert(0 <= m * p < 0x100_0000 * top) by (nonlinear_arith)
                requires
                    0 < p <= top,
                    0 <= m < 0x100_0000,
            ;
        }
    } else {
        lemma_fits(bits);
        let t = truncated(bits);
        let p = pow2((e - 1) as nat) as int;
        lemma_pow2_pos((e - 1) as nat);
        if e < 150 {
            lemma_truncated_is_integer(bits);
            let q = pow2((150 - e) as nat) as int;
            lemma_pow2_pos((150 - e) as nat);
            lemma_pow2_adds((150 - e) as nat, (e - 1) as nat);
            let mt = significand(t);
            let whole = m / q;
            let rest = m % q;
            lemma_fundamental_div_mod(m, q);
            lemma_fundamental_div_mod(mt, q);
            assert(mt / q == whole) by {
                assert(toward_zero(t) == toward_zero(bits));
            }
            assert(whole > 0) by (nonlinear_arith)
                requires
                    mt >= 0x80_0000,
                    mt == q * whole,
                    q > 0,
            ;
            assert(mt * p == whole * one && m * p == whole * one + rest * p) by (nonlinear_arith)
                requires
                    mt == q * whole,
                    m == q * whole + rest,
                    q * p == one,
            ;
            assert(0 <= rest * p < one) by (nonlinear_arith)
                requires
                    0 <= rest < q,
                    p > 0,
                    q * p == one,
            ;
            assert(whole * one > 0) by (nonlinear_arith)
                requires
                    whole > 0,
                    one > 0,
            ;
            lemma_multiple(whole, one);
        } else {
            lemma_pow2_adds((e - 150) as nat, 149);
            let f = pow2((e - 150) as nat) as int;
            lemma_pow2_pos((e - 150) as nat);
            assert(m * p == (m * f) * one && m * p > 0) by (nonlinear_arith)
                requires
                    p == f * one,
                    m > 0,
                    f > 0,
                    one > 0,
            ;
            lemma_multiple(m * f, one);
        }
    }
}

proof fn lemma_multiple(a: int, unit: int)
    requires
        unit > 0,
    ensures
        (a * unit) % unit == 0,
        (a * unit) / unit == a,
        (-(a * unit)) % unit == 0,
{
    assert(a * unit == unit * a) by (nonlinear_arith);
    assert(-(a * unit) == (-a) * unit) by (nonlinear_arith);
    lemma_fundamental_div_mod_converse(a * unit, unit, a, 0);
    lemma_fundamental_div_mod_converse(-(a * unit), unit, -a, 0);
}

/// A number fits if its integer part is a signed 32-bit integer.
pub proof fn lemma_fits_value(bits: u32)
    ensures
        fits_i32(bits) <==> {
            &&& bits as int / 0x80_0000 % 0x100 < 0xff
            &&& -0x8000_0001 * pow2(149) < single_value(bits)
            &&& single_value(bits) < 0x8000_0000 * pow2(149)
        },
{
    let e = exponent(bits);
    let m = significand(bits);
    let one = pow2(149) as int;
    lemma2_to64();
    lemma_fits(bits);
    lemma_pow2_pos(149);
    lemma_pow2_adds(31, 149);
    lemma_pow2_adds(23, 157);
    lemma_pow2_adds(24, 156);
    lemma_pow2_adds(8, 149);
    if e == 0 {
        lemma_pow2_strictly_increases(23, 149);
    } else {
        let p = pow2((e - 1) as nat) as int;
        lemma_pow2_pos((e - 1) as nat);
        if e < 158 {
            let top = pow2(156) as int;
            if e < 157 {
                lemma_pow2_strictly_increases((e - 1) as nat, 156);
            }
            assert(0 <= m * p < 0x100_0000 * top) by (nonlinear_arith)
                requires
                    0 < p <= top,
                    0 <= m < 0x100_0000,
            ;
        } else {
            let low = pow2(157) as int;
            if e > 158 {
                lemma_pow2_strictly_increases(157, (e - 1) as nat);
                if e > 159 {
                    lemma_pow2_strictly_increases(158, (e - 1) as nat);
                }
                lemma_pow2_adds(1, 157);
                assert(m * p >= 0x100_0000 * low) by (nonlinear_arith)
                    requires
                        p >= 2 * low,
                        m >= 0x80_0000,
                        low > 0,
                ;
            } else {
                assert(m * p == 0x80_0000 * low + (m - 0x80_0000) * low) by (nonlinear_arith)
                    requires
                        p == low,
                ;
                if m > 0x80_0000 {
                    assert((m - 0x80_0000) * low >= low) by (nonlinear_arith)
                        requires
                            m - 0x80_0000 >= 1,
                            low > 0,
                    ;
                }
                assert(bits == (bits / 0x80_0000) * 0x80_0000 + bits % 0x80_0000);
            }
        }
    }
}

proof fn lemma_top_bit_is(n: nat, k: nat)
    requires
        pow2(k) <= n < pow2(k + 1),
    ensures
        n > 0,
        top_bit(n) == k,
{
    lemma_pow2_pos(k);
    lemma_top_bit(n);
    if top_bit(n) < k {
        if top_bit(n) + 1 < k {
            lemma_pow2_strictly_increases(top_bit(n) + 1, k);
        }
    } else if top_bit(n) > k {
        if k + 1 < top_bit(n) {
            lemma_pow2_strictly_increases(k + 1, top_bit(n));
        }
    }
}

/// What the bits of the nearest number stand for.
proof fn lemma_nearest_value(n: nat, k: nat, fraction: nat, bias: nat)
    requires
        pow2(k) <= n < pow2(k + 1),
        bias >= 1,
    ensures
        ({
            let bits = nearest(n, fraction, bias);
            let step = pow2(fraction) as int;
            let e = bits / step;
            let f = bits % step;
            let v = if k <= fraction {
                n as int
            } else {
                half_even(n, (k - fraction) as nat) as int * pow2((k - fraction) as nat)
            };
            &&& bias + k <= e <= bias + k + 1
            &&& (e == bias + k + 1 ==> f == 0)
            &&& (step + f) * pow2((e - 1) as nat) == v * pow2((bias - 1 + fraction) as nat)
            &&& rounds_to(n as int, k, fraction + 1, v)
        }),
{
    lemma_top_bit_is(n, k);
    lemma_rounded_significand(n, fraction);
    lemma_pow2_pos(fraction);
    let q = rounded_significand(n, fraction) as int;
    let step = pow2(fraction) as int;
    let bits = nearest(n, fraction, bias);
    lemma_pow2_adds(fraction, 1);
    lemma2_to64();
    let low = (bias + k - 1) as nat;
    lemma_pow2_adds(low, 1);
    let p = pow2(low) as int;
    assert(bits == (bias + k - 1) * step + q);
    if q < 2 * step {
        assert((bias + k) * step == (bias + k - 1) * step + step) by (nonlinear_arith);
        assert((bias + k) * step == step * (bias + k)) by (nonlinear_arith);
        lemma_fundamental_div_mod_converse(bits, step, (bias + k) as int, q - step);
    } else {
        assert((bias + k + 1) * step == (bias + k - 1) * step + 2 * step) by (nonlinear_arith);
        assert((bias + k + 1) * step == step * (bias + k + 1)) by (nonlinear_arith);
        lemma_fundamental_div_mod_converse(bits, step, (bias + k + 1) as int, 0);
        assert(step * (p * 2) == q * p) by (nonlinear_arith)
            requires
                q == 2 * step,
        ;
    }
    let one = pow2((bias - 1 + fraction) as nat) as int;
    if k <= fraction {
        let d = pow2((fraction - k) as nat) as int;
        lemma_pow2_adds((fraction - k) as nat, low);
        assert((fraction - k) + low == bias - 1 + fraction);
        assert(q * p == n * one) by (nonlinear_arith)
            requires
                q == n * d,
                d * p == one,
        ;
    } else {
        let s = (k - fraction) as nat;
        let unit = pow2(s) as int;
        lemma_pow2_pos(s);
        lemma_pow2_adds(s, (bias - 1 + fraction) as nat);
        assert(s + (bias - 1 + fraction) == low);
        let v = q * unit;
        assert(q * p == v * one) by (nonlinear_arith)
            requires
                p == unit * one,
                v == q * unit,
        ;
        lemma_half_even_is_near(n, s);
        lemma_multiple(q, unit);
        lemma_fundamental_div_mod(n as int, unit);
        let whole = n as int / unit;
        assert(whole * unit == unit * whole) by (nonlinear_arith);
        assert((whole + 1) * unit == unit * whole + unit) by (nonlinear_arith);
    }
}

/// The single precision number nearest to an integer: the integer itself up to
/// 24 digits, else the integer rounded to that many.
pub proof fn lemma_nearest_single_value(n: u128, k: nat)
    requires
        pow2(k) <= n < pow2(k + 1),
    ensures
        nearest_single(n) < 0x8000_0000,
        single_value(nearest_single(n)) % (pow2(149) as int) == 0,
        rounds_to(n as int, k, 24, single_value(nearest_single(n)) / (pow2(149) as int)),
{
    lemma2_to64();
    lemma_top_bit_is(n as nat, k);
    lemma_bits_of_u128(n, k);
    lemma_nearest_value(n as nat, k, 23, 127);
    let bits = nearest(n as nat, 23, 127);
    lemma_fundamental_div_mod(bits, 0x80_0000);
    assert(bits < 0x8000_0000);
    let v = if k <= 23 {
        n as int
    } else {
        half_even(n as nat, (k - 23) as nat) as int * pow2((k - 23) as nat)
    };
    lemma_pow2_pos(149);
    lemma_multiple(v, pow2(149) as int);
}

/// The double precision number nearest to an integer: the integer itself up to
/// 53 digits, else the integer rounded to that many.
pub proof fn lemma_nearest_double_value(n: u128, k: nat)
    requires
        pow2(k) <= n < pow2(k + 1),
    ensures
        nearest_double(n) < 0x8000_0000_0000_0000,
        double_value(nearest_double(n)) % (pow2(1074) as int) == 0,
        rounds_to(n as int, k, 53, double_value(nearest_double(n)) / (pow2(1074) as int)),
{
    lemma2_to64();
    lemma2_to64_rest();
    lemma_top_bit_is(n as nat, k);
    lemma_bits_of_u128(n, k);
    lemma_nearest_value(n as nat, k, 52, 1023);
    let bits = nearest(n as nat, 52, 1023);
    lemma_fundamental_div_mod(bits, 0x10_0000_0000_0000);
    assert(bits < 0x8000_0000_0000_0000);
    let v = if k <= 52 {
        n as int
    } else {
        half_even(n as nat, (k - 52) as nat) as int * pow2((k - 52) as nat)
    };
    lemma_pow2_pos(1074);
    lemma_multiple(v, pow2(1074) as int);
}

/// Zero is the number zero.
pub proof fn lemma_nearest_zero()
    ensures
        nearest_single(0) == 0,
        nearest_double(0) == 0,
{
}

proof fn lemma_bits_of_u128(n: u128, k: nat)
    requires
        pow2(k) <= n,
    ensures
        k < 128,
{
    lemma2_to64();
    lemma2_to64_rest();
    lemma_pow2_adds(64, 64);
    if k > 128 {
        lemma_pow2_strictly_increases(128, k);
    }
}

} // verus!
