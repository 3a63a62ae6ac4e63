//! Integers as floating point numbers: the nearest one, in IEEE 754 bits.

use vstd::arithmetic::div_mod::lemma_fundamental_div_mod;
use vstd::arithmetic::div_mod::lemma_fundamental_div_mod_converse;
use vstd::arithmetic::power2::lemma2_to64;
use vstd::arithmetic::power2::lemma2_to64_rest;
use vstd::arithmetic::power2::lemma_pow2_adds;
use vstd::arithmetic::power2::lemma_pow2_pos;
use vstd::arithmetic::power2::lemma_pow2_strictly_increases;
use vstd::arithmetic::power2::lemma_pow2_unfold;
use vstd::arithmetic::power2::pow2;
use vstd::prelude::*;

use crate::single::exponent;
use crate::single::fits_i32;
use crate::single::lemma_fits;
use crate::single::significand;
use crate::single::toward_zero;
use crate::single::truncated;

verus! {

/// The position of the highest bit that is set, counted from zero.
pub open spec fn top_bit(n: nat) -> nat
    decreases n,
{
    if n < 2 {
        0
    } else {
        1 + top_bit(n / 2)
    }
}

/// `n` divided by two to the power of `shift`, rounded to the nearest integer;
/// halfway between two, to the even one.
pub open spec fn half_even(n: nat, shift: nat) -> nat {
    let unit = pow2(shift);
    let whole = n / unit;
    let rest = n % unit;
    if 2 * rest > unit || (2 * rest == unit && whole % 2 == 1) {
        whole + 1
    } else {
        whole
    }
}

/// The significand of the number nearest to `n`, with its highest bit, where
/// `fraction` bits stand behind that one. It may be a power of two too large by
/// one where rounding carries.
pub open spec fn rounded_significand(n: nat, fraction: nat) -> nat {
    if top_bit(n) <= fraction {
        n * pow2((fraction - top_bit(n)) as nat)
    } else {
        half_even(n, (top_bit(n) - fraction) as nat)
    }
}

/// The bits of the number nearest to `n`, in the format with `fraction` bits
/// behind the point and the given exponent bias. The exponent stands above the
/// fraction, so that a carry of the significand moves into it.
pub open spec fn nearest(n: nat, fraction: nat, bias: nat) -> int {
    if n == 0 {
        0
    } else {
        (bias + top_bit(n) - 1) * pow2(fraction) + rounded_significand(n, fraction)
    }
}

/// The bits of the single precision number nearest to `n`.
pub open spec fn nearest_single(n: u128) -> u32 {
    nearest(n as nat, 23, 127) as u32
}

/// The bits of the double precision number nearest to `n`.
pub open spec fn nearest_double(n: u128) -> u64 {
    nearest(n as nat, 52, 1023) as u64
}

pub(crate) proof fn lemma_top_bit(n: nat)
    requires
        n > 0,
    ensures
        pow2(top_bit(n)) <= n < pow2(top_bit(n) + 1),
    decreases n,
{
    lemma2_to64();
    if n >= 2 {
        lemma_top_bit(n / 2);
        lemma_pow2_unfold(top_bit(n));
        lemma_pow2_unfold(top_bit(n) + 1);
    }
}

proof fn lemma_top_bit_below(n: nat, bits: nat)
    requires
        0 < n < pow2(bits),
    ensures
        top_bit(n) < bits,
{
    lemma_top_bit(n);
    if top_bit(n) > bits {
        lemma_pow2_strictly_increases(bits, top_bit(n));
    }
}

proof fn lemma_pow2_128()
    ensures
        pow2(128) == u128::MAX + 1,
{
    lemma2_to64();
    lemma2_to64_rest();
    lemma_pow2_adds(64, 64);
}

/// The rounded significand has its highest bit, or is the next power of two.
pub(crate) proof fn lemma_rounded_significand(n: nat, fraction: nat)
    requires
        n > 0,
    ensures
        pow2(fraction) <= rounded_significand(n, fraction) <= pow2(fraction + 1),
        top_bit(n) <= fraction ==> rounded_significand(n, fraction) < pow2(fraction + 1),
{
    let k = top_bit(n);
    lemma_top_bit(n);
    if k <= fraction {
        let f = pow2((fraction - k) as nat);
        lemma_pow2_pos((fraction - k) as nat);
        lemma_pow2_adds(k, (fraction - k) as nat);
        lemma_pow2_adds(k + 1, (fraction - k) as nat);
        let low = pow2(k);
        let high = pow2(k + 1);
        assert(low * f <= n * f < high * f) by (nonlinear_arith)
            requires
                low <= n < high,
                f > 0,
        ;
    } else {
        let s = (k - fraction) as nat;
        let unit = pow2(s);
        lemma_pow2_pos(s);
        lemma_pow2_adds(fraction, s);
        lemma_pow2_adds(fraction + 1, s);
        let low = pow2(fraction);
        let high = pow2(fraction + 1);
        let whole = n / unit;
        assert(low <= whole < high) by (nonlinear_arith)
            requires
                low * unit <= n < high * unit,
                unit > 0,
                whole == n / unit,
        ;
    }
}

/// Two to the power of `exponent`.
fn power_of_two(exponent: u32) -> (power: u128)
    requires
        exponent < 128,
    ensures
        power == pow2(exponent as nat),
{
    proof {
        lemma2_to64();
        lemma_pow2_128();
    }
    let mut power: u128 = 1;
    let mut i: u32 = 0;
    while i < exponent
        invariant
            i <= exponent < 128,
            power == pow2(i as nat),
            pow2(128) == u128::MAX + 1,
        decreases exponent - i,
    {
        proof {
            lemma_pow2_unfold((i + 1) as nat);
            lemma_pow2_strictly_increases((i + 1) as nat, 128);
        }
        power = power * 2;
        i = i + 1;
    }
    power
}

/// The position of the highest bit that is set.
fn top_bit_of(n: u128) -> (bit: u32)
    requires
        n > 0,
    ensures
        bit == top_bit(n as nat),
        bit < 128,
{
    proof {
        lemma_pow2_128();
        lemma_top_bit_below(n as nat, 128);
    }
    let mut bit: u32 = 0;
    let mut rest: u128 = n;
    while rest >= 2
        invariant
            rest > 0,
            bit + top_bit(rest as nat) == top_bit(n as nat),
            top_bit(n as nat) < 128,
        decreases rest,
    {
        rest = rest / 2;
        bit = bit + 1;
    }
    bit
}

/// The bits of the number nearest to `n`, in one of the two formats.
fn nearest_bits(n: u128, fraction: u32, bias: u32) -> (bits: u64)
    requires
        (fraction == 23 && bias == 127) || (fraction == 52 && bias == 1023),
    ensures
        bits == nearest(n as nat, fraction as nat, bias as nat),
        fraction == 23 ==> bits <= u32::MAX,
{
    if n == 0 {
        return 0;
    }
    let k: u32 = top_bit_of(n);
    proof {
        lemma2_to64();
        lemma2_to64_rest();
        lemma_rounded_significand(n as nat, fraction as nat);
    }
    let significand: u128 = if k <= fraction {
        n * power_of_two(fraction - k)
    } else {
        let unit: u128 = power_of_two(k - fraction);
        proof {
            lemma_pow2_pos((k - fraction) as nat);
            lemma_pow2_128();
            lemma_pow2_unfold(128);
            if k - fraction < 127 {
                lemma_pow2_strictly_increases((k - fraction) as nat, 127);
            }
        }
        let whole: u128 = n / unit;
        let rest: u128 = n % unit;
        if rest > unit - rest || (rest == unit - rest && whole % 2 == 1) {
            whole + 1
        } else {
            whole
        }
    };
    let step: u128 = power_of_two(fraction);
    let exponent: u128 = (bias + k - 1) as u128;
    proof {
        assert(exponent * step <= 1149 * 0x10_0000_0000_0000) by (nonlinear_arith)
            requires
                exponent <= 1149,
                step <= 0x10_0000_0000_0000,
        ;
        if fraction == 23 {
            assert(exponent * step <= 253 * 0x80_0000) by (nonlinear_arith)
                requires
                    exponent <= 253,
                    step == 0x80_0000,
            ;
        }
    }
    (exponent * step + significand) as u64
}

/// The single precision number nearest to an integer, as bits. Too large an
/// integer gives infinity.
pub fn integer_to_single(n: u128) -> (bits: u32)
    ensures
        bits == nearest_single(n),
{
    nearest_bits(n, 23, 127) as u32
}

/// The double precision number nearest to an integer, as bits.
pub fn integer_to_double(n: u128) -> (bits: u64)
    ensures
        bits == nearest_double(n),
{
    nearest_bits(n, 52, 1023)
}

/// Rounding goes to the nearest: it is off by half a unit at most.
pub proof fn lemma_half_even_is_near(n: nat, shift: nat)
    ensures
        -pow2(shift) <= 2 * (half_even(n, shift) * pow2(shift) - n) <= pow2(shift),
{
    let unit = pow2(shift) as int;
    let whole = n as int / unit;
    let rest = n as int % unit;
    lemma_pow2_pos(shift);
    lemma_fundamental_div_mod(n as int, unit);
    assert(whole * unit == unit * whole) by (nonlinear_arith);
    assert((whole + 1) * unit == unit * whole + unit) by (nonlinear_arith);
}

/// What the bits of the single precision number nearest to `n` hold.
proof fn lemma_nearest_single_parts(n: u128)
    requires
        n > 0,
    ensures
        0 < nearest_single(n) < 0x8000_0000,
        nearest_single(n) == nearest(n as nat, 23, 127),
        ({
            let k = top_bit(n as nat);
            let q = rounded_significand(n as nat, 23) as int;
            if q < 0x100_0000 {
                &&& exponent(nearest_single(n)) == 127 + k
                &&& significand(nearest_single(n)) == q
            } else {
                &&& k > 23
                &&& q == 0x100_0000
                &&& exponent(nearest_single(n)) == 128 + k
                &&& significand(nearest_single(n)) == 0x80_0000
            }
        }),
{
    let k = top_bit(n as nat) as int;
    let q = rounded_significand(n as nat, 23) as int;
    lemma2_to64();
    lemma_pow2_128();
    lemma_top_bit_below(n as nat, 128);
    lemma_rounded_significand(n as nat, 23);
    let b = (126 + k) * 0x80_0000 + q;
    assert(nearest(n as nat, 23, 127) == b);
    if q < 0x100_0000 {
        lemma_fundamental_div_mod_converse(b, 0x80_0000, 127 + k, q - 0x80_0000);
    } else {
        lemma_fundamental_div_mod_converse(b, 0x80_0000, 128 + k, 0);
    }
}

/// The single precision number nearest to an integer is an integer: the integer
/// itself up to 24 bits, else the integer rounded to 24 bits. (Infinity, at the
/// upper end, counts as if its exponent were an ordinary one.)
pub proof fn lemma_nearest_single_is_integer(n: u128)
    requires
        n > 0,
    ensures
        truncated(nearest_single(n)) == nearest_single(n),
        top_bit(n as nat) <= 23 ==> toward_zero(nearest_single(n)) == n,
        top_bit(n as nat) > 23 ==> toward_zero(nearest_single(n)) == half_even(
            n as nat,
            (top_bit(n as nat) - 23) as nat,
        ) * pow2((top_bit(n as nat) - 23) as nat),
{
    let k = top_bit(n as nat);
    let q = rounded_significand(n as nat, 23) as int;
    let bits = nearest_single(n);
    lemma2_to64();
    lemma_nearest_single_parts(n);
    if k <= 23 {
        let d = pow2((23 - k) as nat) as int;
        let c = pow2(k) as int;
        lemma_pow2_pos((23 - k) as nat);
        lemma_pow2_adds(k, (23 - k) as nat);
        assert(q == n * d);
        lemma_fundamental_div_mod_converse(q, d, n as int, 0);
        assert(bits == d * ((126 + k) * c + n)) by (nonlinear_arith)
            requires
                bits == (126 + k) * 0x80_0000 + n * d,
                c * d == 0x80_0000,
        ;
        lemma_fundamental_div_mod_converse(bits as int, d, (126 + k) * c + n, 0);
        assert(bits as int % d == 0);
    } else if q == 0x100_0000 {
        lemma_pow2_unfold((k - 22) as nat);
    }
}

/// The integers whose nearest single precision number is a signed 32-bit
/// integer: all below the middle between the largest such number and the next.
pub proof fn lemma_nearest_single_fits(n: u128)
    ensures
        fits_i32(nearest_single(n)) <==> n < 0x7fff_ffc0,
{
    lemma2_to64();
    lemma_fits(nearest_single(n));
    if n > 0 {
        let k = top_bit(n as nat);
        lemma_nearest_single_parts(n);
        lemma_top_bit(n as nat);
        if k < 30 {
            lemma_pow2_strictly_increases(k + 1, 31);
        } else if k > 30 {
            if k > 31 {
                lemma_pow2_strictly_increases(31, k);
            }
        } else {
            lemma_half_even_is_near(n as nat, 7);
        }
    }
}

} // verus!
