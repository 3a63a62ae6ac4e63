//! Single precision floating point numbers, as their IEEE 754 bits.

use vstd::arithmetic::div_mod::lemma_div_denominator;
use vstd::arithmetic::div_mod::lemma_fundamental_div_mod;
use vstd::arithmetic::div_mod::lemma_fundamental_div_mod_converse;
use vstd::arithmetic::div_mod::lemma_mod_breakdown;
use vstd::arithmetic::power2::lemma2_to64;
use vstd::arithmetic::power2::lemma_pow2_adds;
use vstd::arithmetic::power2::lemma_pow2_pos;
use vstd::arithmetic::power2::lemma_pow2_strictly_increases;
use vstd::arithmetic::power2::pow2;
use vstd::bits::lemma_u32_shl_is_mul;
use vstd::prelude::*;

verus! {

/// The biased exponent. With an exponent of 150 the significand is the value.
pub open spec fn exponent(bits: u32) -> int {
    (bits / 0x80_0000) as int % 0x100
}

/// The significand of a normal number, as an integer of 24 bits.
pub open spec fn significand(bits: u32) -> int {
    0x80_0000 + bits as int % 0x80_0000
}

/// The number rounded toward zero. Infinities and what is not a number count
/// as if their exponent were an ordinary one.
pub open spec fn toward_zero(bits: u32) -> int {
    let e = exponent(bits);
    let magnitude = if e < 127 {
        0
    } else if e <= 150 {
        significand(bits) / pow2((150 - e) as nat) as int
    } else {
        significand(bits) * pow2((e - 150) as nat)
    };
    if bits >= 0x8000_0000 {
        -magnitude
    } else {
        magnitude
    }
}

/// Whether the number, rounded toward zero, is a signed 32-bit integer.
pub open spec fn fits_i32(bits: u32) -> bool {
    exponent(bits) < 0xff && i32::MIN <= toward_zero(bits) <= i32::MAX
}

/// The number rounded toward zero, as bits. Zero has no sign.
pub open spec fn truncated(bits: u32) -> u32 {
    let e = exponent(bits);
    if e < 127 {
        0
    } else if e < 150 {
        (bits - bits as int % pow2((150 - e) as nat) as int) as u32
    } else {
        bits
    }
}

/// The numbers that fit are those with a small exponent, and the least signed
/// 32-bit integer.
pub proof fn lemma_fits(bits: u32)
    ensures
        fits_i32(bits) <==> (exponent(bits) < 158 || bits == 0xcf00_0000),
{
    let e = exponent(bits);
    let m = significand(bits);
    lemma2_to64();
    if 127 <= e <= 150 {
        let d = pow2((150 - e) as nat) as int;
        lemma_pow2_pos((150 - e) as nat);
        assert(0 <= m / d <= m) by (nonlinear_arith)
            requires
                d > 0,
                m >= 0,
        ;
    } else if 150 < e < 158 {
        let f = pow2((e - 150) as nat) as int;
        if e < 157 {
            lemma_pow2_strictly_increases((e - 150) as nat, 7);
        }
        assert(0 <= m * f < 0x8000_0000) by (nonlinear_arith)
            requires
                0 <= f <= 0x80,
                0 <= m < 0x100_0000,
        ;
    } else if e >= 158 {
        let f = pow2((e - 150) as nat) as int;
        if e > 158 {
            lemma_pow2_strictly_increases(8, (e - 150) as nat);
            assert(m * f > 0x8000_0000) by (nonlinear_arith)
                requires
                    f > 0x100,
                    m >= 0x80_0000,
            ;
        } else {
            assert(m * f == m * 0x100) by (nonlinear_arith)
                requires
                    f == 0x100,
            ;
            assert(bits == (bits / 0x80_0000) * 0x80_0000 + bits % 0x80_0000);
        }
    }
}

/// Rounds a number toward zero, if it is then a signed 32-bit integer.
pub fn truncate(bits: u32) -> (result: Option<u32>)
    ensures
        result == if fits_i32(bits) {
            Some(truncated(bits))
        } else {
            None
        },
{
    proof {
        lemma_fits(bits);
    }
    let e: u32 = (bits / 0x80_0000) % 0x100;
    if e >= 158 && bits != 0xcf00_0000 {
        None
    } else if e < 127 {
        Some(0)
    } else if e < 150 {
        let shift: u32 = 150 - e;
        proof {
            lemma2_to64();
            if shift < 23 {
                lemma_pow2_strictly_increases(shift as nat, 23);
            }
            lemma_pow2_pos(shift as nat);
            lemma_u32_shl_is_mul(1, shift);
        }
        let unit: u32 = 1u32 << shift;
        Some(bits - bits % unit)
    } else {
        Some(bits)
    }
}

/// Rounding toward zero gives the integer that it should, keeps nothing behind
/// the point, and gives zero one form only.
pub proof fn lemma_truncated_is_integer(bits: u32)
    requires
        fits_i32(bits),
    ensures
        toward_zero(truncated(bits)) == toward_zero(bits),
        exponent(truncated(bits)) < 0xff,
        exponent(bits) >= 127 ==> exponent(truncated(bits)) == exponent(bits),
        exponent(bits) >= 127 ==> (truncated(bits) >= 0x8000_0000 <==> bits >= 0x8000_0000),
        toward_zero(bits) == 0 ==> truncated(bits) == 0,
        toward_zero(bits) != 0 ==> 127 <= exponent(truncated(bits)) && (exponent(truncated(bits))
            < 150 ==> significand(truncated(bits)) % pow2(
            (150 - exponent(truncated(bits))) as nat,
        ) as int == 0),
{
    let e = exponent(bits);
    let m = significand(bits);
    lemma2_to64();
    if 127 <= e < 150 {
        let s = (150 - e) as nat;
        let q = pow2(s) as int;
        let r = pow2((23 - s) as nat) as int;
        lemma_pow2_pos(s);
        lemma_pow2_pos((23 - s) as nat);
        lemma_pow2_adds(s, (23 - s) as nat);
        assert(q * r == 0x80_0000);
        let b = bits as int;
        let a = b / q;
        let t = truncated(bits) as int;
        lemma_fundamental_div_mod(b, q);
        assert(t == q * a);
        // The exponent and the sign stay.
        lemma_div_denominator(b, q, r);
        lemma_div_denominator(t, q, r);
        lemma_fundamental_div_mod_converse(t, q, a, 0);
        assert(t / 0x80_0000 == b / 0x80_0000);
        assert(exponent(truncated(bits)) == e);
        // The significand loses what lies behind the point.
        lemma_mod_breakdown(b, q, r);
        lemma_mod_breakdown(t, q, r);
        let whole = r + a % r;
        assert(significand(truncated(bits)) == q * whole) by (nonlinear_arith)
            requires
                significand(truncated(bits)) == 0x80_0000 + q * (a % r),
                q * r == 0x80_0000,
                whole == r + a % r,
        ;
        assert(m == q * whole + b % q) by (nonlinear_arith)
            requires
                m == 0x80_0000 + (q * (a % r) + b % q),
                q * r == 0x80_0000,
                whole == r + a % r,
        ;
        lemma_fundamental_div_mod_converse(m, q, whole, b % q);
        lemma_fundamental_div_mod_converse(q * whole, q, whole, 0);
        assert(whole > 0) by (nonlinear_arith)
            requires
                whole == r + a % r,
                r > 0,
        ;
        assert(b >= 0x8000_0000 <==> t >= 0x8000_0000);
    } else if e == 150 {
    } else if e > 150 {
        let f = pow2((e - 150) as nat) as int;
        lemma_pow2_pos((e - 150) as nat);
        assert(m * f > 0) by (nonlinear_arith)
            requires
                m > 0,
                f > 0,
        ;
    }
}

} // verus!
