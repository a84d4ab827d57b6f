use vstd::prelude::*;
use vstd::arithmetic::div_mod::*;
use vstd::arithmetic::power2::*;

verus! {

/// The largest number of factors a unit's magnitude is built from.
pub const MAX_NUM_FACTORS: usize = 10;

/// `Magnitude` represents the magnitude of a unit (notably not of a quantity) with respect to
/// the base unit of that dimension, as the exact number `sign * mantissa * 2^exponent`.
/// Kilometers, for example, are represented by a magnitude whose value is 1000 in SI units.
/// Keeping the three integers instead of a double lets magnitudes be compared, stored and used
/// as compile-time parameters independently of the host's floating-point arithmetic.
#[derive(Copy, Clone, PartialEq, Eq, Debug, Structural)]
pub struct Magnitude {
    pub mantissa: u64,
    pub exponent: i16,
    pub sign: i8,
}

/// Bit 63 of the bit pattern of an IEEE-754 double: 1 for negative numbers.
pub open spec fn sign_bit(bits: u64) -> nat {
    bits as nat / 0x8000_0000_0000_0000
}

/// Bits 52..63 of the bit pattern of a double: the biased exponent (0 for zero and
/// subnormals, 2047 for infinities and NaNs).
pub open spec fn biased_exponent(bits: u64) -> nat {
    (bits as nat / 0x10_0000_0000_0000) % 2048
}

/// Bits 0..52 of the bit pattern of a double: the stored fraction of the significand.
pub open spec fn fraction(bits: u64) -> nat {
    bits as nat % 0x10_0000_0000_0000
}

/// The sign that decoding a double's bit pattern gives: 1 or -1.
pub open spec fn decoded_sign(bits: u64) -> int {
    if sign_bit(bits) == 0 {
        1
    } else {
        -1
    }
}

/// The integer significand that decoding gives: the fraction with the implicit leading one
/// for normal numbers, and the fraction doubled for subnormals (whose exponent is one larger
/// than the common `-1075` that decoding uses).
pub open spec fn decoded_mantissa(bits: u64) -> nat {
    if biased_exponent(bits) == 0 {
        2 * fraction(bits)
    } else {
        fraction(bits) + 0x10_0000_0000_0000
    }
}

/// The power of two that decoding gives: the biased exponent minus the bias 1023 and minus
/// the 52 bits of the fraction.
pub open spec fn decoded_exponent(bits: u64) -> int {
    biased_exponent(bits) - 1075
}

/// The magnitude that decoding a double's bit pattern gives.
pub open spec fn decoded(bits: u64) -> Magnitude {
    Magnitude {
        mantissa: decoded_mantissa(bits) as u64,
        exponent: decoded_exponent(bits) as i16,
        sign: decoded_sign(bits) as i8,
    }
}

/// Splits the bit pattern of a double into `(mantissa, exponent, sign)` such that the
/// double's value is `sign * mantissa * 2^exponent`.
pub fn integer_decode_f64_bits(bits: u64) -> (r: (u64, i16, i8))
    ensures
        r.0 == decoded_mantissa(bits),
        r.1 == decoded_exponent(bits),
        r.2 == decoded_sign(bits),
{
    assert(bits >> 63u64 == bits / 0x8000_0000_0000_0000) by (bit_vector);
    assert((bits >> 52u64) & 0x7ff == (bits / 0x10_0000_0000_0000) % 2048) by (bit_vector);
    assert((bits >> 52u64) & 0x7ff < 2048) by (bit_vector);
    assert(bits & 0xf_ffff_ffff_ffff == bits % 0x10_0000_0000_0000) by (bit_vector);
    assert((bits & 0xf_ffff_ffff_ffff) << 1u64 == 2 * (bits & 0xf_ffff_ffff_ffff)) by (bit_vector);
    assert((bits & 0xf_ffff_ffff_ffff) | 0x10_0000_0000_0000 == (bits & 0xf_ffff_ffff_ffff)
        + 0x10_0000_0000_0000) by (bit_vector);
    let sign: i8 = if bits >> 63 == 0 {
        1
    } else {
        -1
    };
    let mut exponent: i16 = ((bits >> 52) & 0x7ff) as i16;
    let mantissa: u64 = if exponent == 0 {
        (bits & 0xf_ffff_ffff_ffff) << 1
    } else {
        (bits & 0xf_ffff_ffff_ffff) | 0x10_0000_0000_0000
    };
    exponent -= 1023 + 52;
    (mantissa, exponent, sign)
}

/// How many low bits a double must drop to hold the integer `x`: 0 when `x` fits in the
/// 53-bit significand, otherwise one more than for `x / 2`.
pub open spec fn excess_bits(x: nat) -> nat
    decreases x,
{
    if x < 0x20_0000_0000_0000 {
        0
    } else {
        1 + excess_bits(x / 2)
    }
}

/// The integer `x` rounded to the nearest number a double can hold, with ties to the even
/// significand: IEEE-754 round-to-nearest-even, which is what converting an integer to `f64`
/// and multiplying two `f64`s do.
pub open spec fn round_to_double(x: nat) -> nat {
    let p = pow2(excess_bits(x));
    let q = x / p;
    let r = x % p;
    if 2 * r > p || (2 * r == p && q % 2 == 1) {
        (q + 1) * p
    } else {
        q * p
    }
}

/// Whether evaluating `sign as f64 * mantissa as f64 * 2.0.powi(exponent)` in double
/// arithmetic gives exactly `1.0`. The sign converts exactly; converting the mantissa and
/// multiplying by the sign each round to nearest-even, which leaves a double that is zero or an
/// integer below `2^72` (or negative). Scaling a positive such double by `2^exponent` gives
/// `1.0` exactly when it is `2^-exponent`: for `-72 < exponent <= 0` the power of two is a
/// normal double and the product exact, for larger exponents the result is at least 2 (or
/// infinite, or NaN), and for smaller ones it is below one half.
pub open spec fn evaluates_to_one(m: Magnitude) -> bool {
    &&& m.sign > 0
    &&& m.exponent <= 0
    &&& round_to_double((m.sign as nat) * round_to_double(m.mantissa as nat)) == pow2(
        (-m.exponent) as nat,
    )
}


/// The number of dropped bits is the one that leaves a 53-bit significand: a double holds `x`
/// as a multiple of `p = 2^excess_bits(x)` with `2^52 * p <= x < 2^53 * p`, or exactly when
/// `p` is one.
proof fn lemma_excess_bits(x: nat)
    ensures
        pow2(excess_bits(x)) == 1 ==> x < 0x20_0000_0000_0000,
        pow2(excess_bits(x)) > 1 ==> 0x10_0000_0000_0000 * pow2(excess_bits(x)) <= x
            < 0x20_0000_0000_0000 * pow2(excess_bits(x)),
    decreases x,
{
    lemma2_to64();
    if x >= 0x20_0000_0000_0000 {
        let k = excess_bits(x);
        lemma_excess_bits(x / 2);
        lemma_pow2_unfold(k);
        let p = pow2((k - 1) as nat);
        lemma_pow2_pos((k - 1) as nat);
        if p == 1 {
            assert(x / 2 < 0x20_0000_0000_0000);
        } else {
            assert(0x10_0000_0000_0000 * (2 * p) <= x < 0x20_0000_0000_0000 * (2 * p)) by (
            nonlinear_arith)
                requires
                    0x10_0000_0000_0000 * p <= x / 2 < 0x20_0000_0000_0000 * p,
            ;
        }
    }
}

/// Rounding to a double is to the nearest multiple of `p = 2^excess_bits(x)` with a
/// significand of at most 53 bits, ties going to the even significand; `p` is the unique
/// power of two that leaves `x` a 53-bit significand.
pub proof fn lemma_round_to_double_is_nearest(x: nat)
    ensures
        ({
            let p = pow2(excess_bits(x));
            let r = round_to_double(x);
            &&& p == 1 ==> x < 0x20_0000_0000_0000
            &&& p > 1 ==> 0x10_0000_0000_0000 * p <= x < 0x20_0000_0000_0000 * p
            &&& r % p == 0
            &&& r / p <= 0x20_0000_0000_0000
            &&& 2 * (r - x) <= p
            &&& 2 * (x - r) <= p
            &&& (2 * (r - x) == p || 2 * (x - r) == p) ==> (r / p) % 2 == 0
        }),
{
    lemma_excess_bits(x);
    let p = pow2(excess_bits(x));
    lemma_pow2_pos(excess_bits(x));
    let q = x / p;
    let rem = x % p;
    lemma_fundamental_div_mod(x as int, p as int);
    lemma_mod_pos_bound(x as int, p as int);
    assert(q < 0x20_0000_0000_0000) by {
        if q >= 0x20_0000_0000_0000 {
            assert(p * q >= p * 0x20_0000_0000_0000) by (nonlinear_arith)
                requires
                    q >= 0x20_0000_0000_0000,
                    p > 0,
            ;
        }
    }
    lemma_mod_multiples_basic(q as int, p as int);
    lemma_mod_multiples_basic((q + 1) as int, p as int);
    lemma_div_multiples_vanish(q as int, p as int);
    lemma_div_multiples_vanish((q + 1) as int, p as int);
    assert(q * p == p * q) by (nonlinear_arith);
    assert((q + 1) * p == p * (q + 1)) by (nonlinear_arith);
    assert(p * (q + 1) == p * q + p) by (nonlinear_arith);
}

/// `is_one` sees the mantissa only through the double it converts to: two magnitudes whose
/// mantissas round to the same double, with the same sign and exponent, are both one or both
/// not.
pub proof fn lemma_is_one_sees_rounded_mantissa(m1: Magnitude, m2: Magnitude)
    requires
        round_to_double(m1.mantissa as nat) == round_to_double(m2.mantissa as nat),
        m1.sign == m2.sign,
        m1.exponent == m2.exponent,
    ensures
        evaluates_to_one(m1) == evaluates_to_one(m2),
{
}

/// `round_to_double` on machine integers.
fn round_to_double_u128(x: u128) -> (r: u128)
    requires
        x < 0x8000_0000_0000_0000_0000_0000_0000_0000,
    ensures
        r == round_to_double(x as nat),
        r <= 2 * x,
        x < 0x20_0000_0000_0000 ==> r == x,
{
    let mut y: u128 = x;
    let mut p: u128 = 1;
    let ghost mut k: nat = 0;
    proof {
        lemma2_to64();
    }
    while y >= 0x20_0000_0000_0000
        invariant
            p == pow2(k),
            p > 0,
            y == x / p,
            p <= x + 1,
            k > 0 ==> p <= x,
            excess_bits(x as nat) == k + excess_bits(y as nat),
            x < 0x8000_0000_0000_0000_0000_0000_0000_0000,
        decreases y,
    {
        proof {
            lemma_fundamental_div_mod(x as int, p as int);
            lemma_mod_pos_bound(x as int, p as int);
            assert(p * 2 <= x) by (nonlinear_arith)
                requires
                    y >= 0x20_0000_0000_0000,
                    x == p * y + x % p,
                    x % p >= 0,
                    p > 0,
            ;
            lemma_div_denominator(x as int, p as int, 2);
            lemma_pow2_unfold(k + 1);
        }
        y = y / 2;
        p = p * 2;
        proof {
            k = k + 1;
        }
    }
    let r = x % p;
    proof {
        lemma_fundamental_div_mod(x as int, p as int);
        lemma_mod_pos_bound(x as int, p as int);
        assert(y * p <= x) by (nonlinear_arith)
            requires
                x == p * y + r,
                r >= 0,
        ;
        assert((y + 1) * p == y * p + p) by (nonlinear_arith);
        if x < 0x20_0000_0000_0000 {
            assert(k == 0);
            assert(p == 1);
        }
    }
    if 2 * r > p || (2 * r == p && y % 2 == 1) {
        (y + 1) * p
    } else {
        y * p
    }
}

/// The value of the finite double with the given bit pattern, times `2^1075`, by the
/// IEEE-754 formula: `(-1)^s * 2^(e - 1023) * (1 + f / 2^52)` for a normal number and
/// `(-1)^s * 2^-1022 * (f / 2^52)` for zero and subnormals.
pub open spec fn double_value_times_2_1075(bits: u64) -> int {
    let magnitude: int = if biased_exponent(bits) == 0 {
        // 2^1075 * 2^-1022 * f / 2^52 = 2 * f
        2 * fraction(bits) as int
    } else {
        // 2^1075 * 2^(e - 1023) * (2^52 + f) / 2^52 = 2^e * (2^52 + f)
        pow2(biased_exponent(bits)) * (0x10_0000_0000_0000 + fraction(bits)) as int
    };
    if sign_bit(bits) == 0 {
        magnitude
    } else {
        -magnitude
    }
}

/// The exact value `sign * mantissa * 2^exponent` of a magnitude, times `2^1075`.
pub open spec fn value_times_2_1075(m: Magnitude) -> int
    recommends
        m.exponent >= -1075,
{
    m.sign * m.mantissa * pow2((m.exponent + 1075) as nat)
}

/// A magnitude in the form decoding gives: sign 1 or -1 and a mantissa that a double's
/// significand holds.
pub open spec fn fits_double(m: Magnitude) -> bool {
    &&& m.sign == 1 || m.sign == -1
    &&& m.mantissa < 0x20_0000_0000_0000
}

/// The fields of a double's bit pattern, as the shifts and masks that decoding uses.
proof fn lemma_bit_fields(bits: u64)
    ensures
        sign_bit(bits) == bits >> 63u64,
        sign_bit(bits) < 2,
        biased_exponent(bits) == (bits >> 52u64) & 0x7ff,
        fraction(bits) == bits & 0xf_ffff_ffff_ffff,
        fraction(bits) < 0x10_0000_0000_0000,
{
    assert(bits >> 63u64 == bits / 0x8000_0000_0000_0000) by (bit_vector);
    assert(bits >> 63u64 < 2) by (bit_vector);
    assert((bits >> 52u64) & 0x7ff == (bits / 0x10_0000_0000_0000) % 2048) by (bit_vector);
    assert(bits & 0xf_ffff_ffff_ffff == bits % 0x10_0000_0000_0000) by (bit_vector);
    assert(bits & 0xf_ffff_ffff_ffff < 0x10_0000_0000_0000) by (bit_vector);
}

/// A double of at most 53 significant bits is its own rounding.
proof fn lemma_round_exact(x: nat)
    requires
        x < 0x20_0000_0000_0000,
    ensures
        round_to_double(x) == x,
{
    assert(excess_bits(x) == 0);
    lemma2_to64();
}

/// Decoding gives the sign 1 or -1 and a mantissa below `2^53`, with the exponent in
/// `-1075..=972`.
pub proof fn lemma_decoded_fits_double(bits: u64)
    ensures
        fits_double(decoded(bits)),
        -1075 <= decoded(bits).exponent <= 972,
        decoded(bits).mantissa == decoded_mantissa(bits),
        decoded(bits).exponent == decoded_exponent(bits),
        decoded(bits).sign == decoded_sign(bits),
{
    lemma_bit_fields(bits);
}

/// Decoding is exact: the value `sign * mantissa * 2^exponent` of the magnitude decoded from
/// the bit pattern of a finite double is the double's value.
pub proof fn lemma_decoded_value(bits: u64)
    requires
        biased_exponent(bits) != 2047,
    ensures
        value_times_2_1075(decoded(bits)) == double_value_times_2_1075(bits),
{
    lemma_decoded_fits_double(bits);
    let m = decoded(bits);
    assert(m.exponent + 1075 == biased_exponent(bits));
    if biased_exponent(bits) == 0 {
        lemma2_to64();
    }
    assert(m.sign * m.mantissa * pow2(biased_exponent(bits)) == m.sign * (m.mantissa * pow2(
        biased_exponent(bits),
    ))) by (nonlinear_arith);
    if sign_bit(bits) != 0 {
        assert(-1 * (m.mantissa * pow2(biased_exponent(bits))) == -(m.mantissa * pow2(
            biased_exponent(bits),
        ))) by (nonlinear_arith);
    }
    assert(m.mantissa * pow2(biased_exponent(bits)) == pow2(biased_exponent(bits))
        * m.mantissa) by (nonlinear_arith);
}

/// Decoding loses no information: different bit patterns decode to different magnitudes.
pub proof fn lemma_decode_injective(bits1: u64, bits2: u64)
    requires
        decoded(bits1) == decoded(bits2),
    ensures
        bits1 == bits2,
{
    lemma_decoded_fits_double(bits1);
    lemma_decoded_fits_double(bits2);
    lemma_bit_fields(bits1);
    lemma_bit_fields(bits2);
    assert(sign_bit(bits1) == sign_bit(bits2));
    assert(biased_exponent(bits1) == biased_exponent(bits2));
    assert(fraction(bits1) == fraction(bits2));
    assert(((bits1 >> 63u64) == (bits2 >> 63u64) && (bits1 >> 52u64) & 0x7ff == (bits2 >> 52u64)
        & 0x7ff && bits1 & 0xf_ffff_ffff_ffff == bits2 & 0xf_ffff_ffff_ffff) ==> bits1 == bits2)
        by (bit_vector);
}

/// For a magnitude in the form decoding gives, `is_one` holds exactly when the value
/// `sign * mantissa * 2^exponent` is one.
pub proof fn lemma_is_one_exact(m: Magnitude)
    requires
        fits_double(m),
    ensures
        evaluates_to_one(m) <==> (m.sign == 1 && m.exponent <= 0 && m.mantissa == pow2(
            (-m.exponent) as nat,
        )),
{
    lemma_round_exact(m.mantissa as nat);
    if m.sign == 1 {
        assert((m.sign as nat) == 1);
        assert((m.sign as nat) * (m.mantissa as nat) == m.mantissa as nat);
        lemma_round_exact(m.mantissa as nat);
    }
}

/// `is_one` holds of the magnitude of a double exactly when the double is `1.0`, whose bit
/// pattern is `0x3FF0_0000_0000_0000`.
pub proof fn lemma_is_one_decoded(bits: u64)
    ensures
        evaluates_to_one(decoded(bits)) <==> bits == 0x3FF0_0000_0000_0000,
{
    let m = decoded(bits);
    lemma_decoded_fits_double(bits);
    lemma_bit_fields(bits);
    lemma_is_one_exact(m);
    lemma2_to64();
    lemma2_to64_rest();
    assert(bits == 0x3FF0_0000_0000_0000 <==> ((bits >> 63u64) == 0 && (bits >> 52u64) & 0x7ff
        == 1023 && bits & 0xf_ffff_ffff_ffff == 0)) by (bit_vector);
    if m.sign == 1 && m.exponent <= 0 && m.mantissa == pow2((-m.exponent) as nat) {
        let j = (-m.exponent) as nat;
        if biased_exponent(bits) == 0 {
            lemma_pow2_strictly_increases(53, j);
        } else if j < 52 {
            lemma_pow2_strictly_increases(j, 52);
        } else if j > 52 {
            if j > 53 {
                lemma_pow2_strictly_increases(53, j);
            }
        }
    }
}

impl Magnitude {
    /// The magnitude whose value is that of the double with the given bit pattern
    /// (`f.to_bits()` of a double `f`).
    pub fn from_f64_bits(bits: u64) -> (r: Magnitude)
        ensures
            r == decoded(bits),
            r.mantissa == decoded_mantissa(bits),
            r.exponent == decoded_exponent(bits),
            r.sign == decoded_sign(bits),
    {
        let (mantissa, exponent, sign) = integer_decode_f64_bits(bits);
        Magnitude { mantissa, exponent, sign }
    }

    /// Whether the magnitude is one, decided as the double evaluation
    /// `sign as f64 * mantissa as f64 * 2.0.powi(exponent) == 1.0` decides it.
    pub fn is_one(&self) -> (r: bool)
        ensures
            r == evaluates_to_one(*self),
    {
        if self.sign <= 0 {
            return false;
        }
        let m = round_to_double_u128(self.mantissa as u128);
        let s = self.sign as u128;
        assert(s * m <= 127 * 0x2_0000_0000_0000_0000) by (nonlinear_arith)
            requires
                s <= 127,
                m <= 0x2_0000_0000_0000_0000,
        ;
        let prod = round_to_double_u128(s * m);
        proof {
            lemma2_to64();
            lemma2_to64_rest();
            lemma_pow2_adds(64, 64);
            lemma_pow2_adds(63, 64);
        }
        if self.exponent > 0 || self.exponent < -127 {
            proof {
                if self.exponent < -128 {
                    lemma_pow2_strictly_increases(128, (-self.exponent) as nat);
                }
            }
            return false;
        }
        let e: u32 = (-(self.exponent as i32)) as u32;
        let mut t: u128 = 1;
        let mut i: u32 = 0;
        while i < e
            invariant
                t == pow2(i as nat),
                i <= e,
                e <= 127,
                pow2(127) == 0x8000_0000_0000_0000_0000_0000_0000_0000,
            decreases e - i,
        {
            proof {
                lemma_pow2_unfold((i + 1) as nat);
                if i + 1 < 127 {
                    lemma_pow2_strictly_increases((i + 1) as nat, 127);
                }
            }
            t = t * 2;
            i = i + 1;
        }
        prod == t
    }
}

} // verus!
