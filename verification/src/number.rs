//! Numbers of the language: IEEE-754 doubles, held as their bit patterns.
//!
//! Sign, order, equality and the numeral of a whole number below 2^63 are
//! read off the bits. Sums, products, quotients and the numerals of other
//! numbers are not computed here.

use vstd::prelude::*;
use crate::text::{integer_digits, lemma_integer_digits_have_no_point, signed_decimal};
use vstd::arithmetic::power2::{lemma2_to64, lemma2_to64_rest, lemma_pow2_strictly_increases, pow2};
use vstd::bits::{
    low_bits_mask, lemma_u64_low_bits_mask_is_mod, lemma_u64_shl_is_mul, lemma_u64_shr_is_div,
};

verus! {

/// The sign bit of a double.
pub const SIGN_BIT: u64 = 0x8000_0000_0000_0000;

/// The bits of a double below its sign: exponent and fraction.
pub const MAGNITUDE_BITS: u64 = 0x7fff_ffff_ffff_ffff;

/// The magnitude of an infinity: every exponent bit set, no fraction bit.
pub const INFINITE: u64 = 0x7ff0_0000_0000_0000;

/// Exponent and fraction of a double, as one integer. Among doubles of
/// one sign that are no NaN, a larger magnitude is a number farther from
/// zero.
pub open spec fn magnitude(bits: u64) -> u64 {
    bits & MAGNITUDE_BITS
}

/// Whether the sign bit is set.
pub open spec fn is_negative(bits: u64) -> bool {
    bits & SIGN_BIT != 0
}

/// Whether the double is not a number.
pub open spec fn is_nan(bits: u64) -> bool {
    magnitude(bits) > INFINITE
}

/// Whether the double is zero, of either sign.
pub open spec fn is_zero(bits: u64) -> bool {
    magnitude(bits) == 0
}

/// The place of a double that is no NaN in the order of the numbers:
/// an integer that grows with the number. Both zeros have place 0.
pub open spec fn place(bits: u64) -> int {
    if is_negative(bits) {
        -(magnitude(bits) as int)
    } else {
        magnitude(bits) as int
    }
}

/// Numeric equality: no NaN equals anything, the two zeros are equal.
pub open spec fn equal(a: u64, b: u64) -> bool {
    !is_nan(a) && !is_nan(b) && place(a) == place(b)
}

/// Numeric order: false whenever a NaN takes part.
pub open spec fn less(a: u64, b: u64) -> bool {
    !is_nan(a) && !is_nan(b) && place(a) < place(b)
}

/// The double of opposite sign.
pub open spec fn negated(bits: u64) -> u64 {
    bits ^ SIGN_BIT
}

/// Whether the double is not a number.
pub fn number_is_nan(bits: u64) -> (r: bool)
    ensures
        r == is_nan(bits),
{
    (bits & MAGNITUDE_BITS) > INFINITE
}

/// Whether the double is zero, of either sign.
pub fn number_is_zero(bits: u64) -> (r: bool)
    ensures
        r == is_zero(bits),
{
    (bits & MAGNITUDE_BITS) == 0
}

/// The double of opposite sign.
pub fn negate(bits: u64) -> (r: u64)
    ensures
        r == negated(bits),
        magnitude(r) == magnitude(bits),
        is_negative(r) != is_negative(bits),
{
    let r = bits ^ SIGN_BIT;
    assert((bits ^ 0x8000_0000_0000_0000u64) & 0x7fff_ffff_ffff_ffffu64 == bits
        & 0x7fff_ffff_ffff_ffffu64) by (bit_vector);
    assert(((bits ^ 0x8000_0000_0000_0000u64) & 0x8000_0000_0000_0000u64 != 0) != (bits
        & 0x8000_0000_0000_0000u64 != 0)) by (bit_vector);
    r
}

/// Numeric equality.
pub fn numbers_equal(a: u64, b: u64) -> (r: bool)
    ensures
        r == equal(a, b),
{
    if number_is_nan(a) || number_is_nan(b) {
        false
    } else {
        let ma = a & MAGNITUDE_BITS;
        let mb = b & MAGNITUDE_BITS;
        let na = (a & SIGN_BIT) != 0;
        let nb = (b & SIGN_BIT) != 0;
        if na == nb {
            ma == mb
        } else {
            ma == 0 && mb == 0
        }
    }
}

/// Numeric order: whether `a` is less than `b`.
pub fn number_less(a: u64, b: u64) -> (r: bool)
    ensures
        r == less(a, b),
{
    if number_is_nan(a) || number_is_nan(b) {
        false
    } else {
        let ma = a & MAGNITUDE_BITS;
        let mb = b & MAGNITUDE_BITS;
        let na = (a & SIGN_BIT) != 0;
        let nb = (b & SIGN_BIT) != 0;
        if na {
            if nb {
                ma > mb
            } else {
                ma != 0 || mb != 0
            }
        } else {
            if nb {
                false
            } else {
                ma < mb
            }
        }
    }
}

/// The fraction bits of a double.
pub const FRACTION_BITS: u64 = 0x000f_ffff_ffff_ffff;

/// The bit that a normal double has before its fraction: 2^52.
pub const HIDDEN_BIT: u64 = 0x0010_0000_0000_0000;

/// The exponent field of the doubles from one up to two.
pub const EXPONENT_OF_ONE: u64 = 1023;

/// The exponent field from which on every double is a whole number: its
/// significand then counts units or more.
pub const EXPONENT_OF_UNITS: u64 = 1075;

/// The exponent field of the infinities and of NaN.
pub const EXPONENT_SPECIAL: u64 = 2047;

/// The magnitude below which the numeral of a whole number is written
/// here: 2^63.
pub const WRITTEN_BELOW: u64 = 0x8000_0000_0000_0000;

/// The exponent field of a double.
pub open spec fn exponent(bits: u64) -> u64 {
    (bits >> 52) & 0x7ff
}

/// The significand of a normal double: the hidden bit, then the fraction.
/// The double is this number times 2^(exponent - 1075), with its sign.
pub open spec fn significand(bits: u64) -> u64 {
    (bits & FRACTION_BITS) | HIDDEN_BIT
}

/// The magnitude of the whole number that the double is, if it is one.
///
/// Zero is whole. A double below one, an infinity and a NaN are not. From
/// the exponent 1075 on the significand is multiplied by a power of two;
/// below it the significand is divided by one, and the double is whole
/// where nothing is left over.
pub open spec fn whole_magnitude(bits: u64) -> Option<nat> {
    let e = exponent(bits);
    let s = significand(bits) as nat;
    if is_zero(bits) {
        Some(0)
    } else if e < EXPONENT_OF_ONE || e == EXPONENT_SPECIAL {
        None
    } else if e >= EXPONENT_OF_UNITS {
        Some(s * pow2((e - EXPONENT_OF_UNITS) as nat))
    } else if s % pow2((EXPONENT_OF_UNITS - e) as nat) == 0 {
        Some(s / pow2((EXPONENT_OF_UNITS - e) as nat))
    } else {
        None
    }
}

/// The whole number that the double is, if it is one.
pub open spec fn whole(bits: u64) -> Option<int> {
    match whole_magnitude(bits) {
        Some(m) => Some(
            if is_negative(bits) {
                -(m as int)
            } else {
                m as int
            },
        ),
        None => None,
    }
}

/// Reads a double as a whole number, if it is one of a magnitude below
/// 2^63: hands back whether it is negative, and its magnitude.
pub fn whole_number(bits: u64) -> (r: Option<(bool, u64)>)
    ensures
        match r {
            Some((negative, magnitude)) => {
                &&& negative == is_negative(bits)
                &&& whole_magnitude(bits) == Some(magnitude as nat)
                &&& magnitude < WRITTEN_BELOW
            },
            None => match whole_magnitude(bits) {
                Some(m) => m >= WRITTEN_BELOW,
                None => true,
            },
        },
{
    let e = (bits >> 52) & 0x7ff;
    let s = (bits & FRACTION_BITS) | HIDDEN_BIT;
    let negative = (bits & SIGN_BIT) != 0;
    assert(0x10_0000_0000_0000 <= s < 0x20_0000_0000_0000) by (bit_vector)
        requires
            s == (bits & 0x000f_ffff_ffff_ffffu64) | 0x0010_0000_0000_0000u64,
    ;
    assert(e <= 2047) by (bit_vector)
        requires
            e == (bits >> 52) & 0x7ffu64,
    ;
    proof {
        lemma2_to64();
        lemma2_to64_rest();
    }
    if number_is_zero(bits) {
        Some((negative, 0))
    } else if e < EXPONENT_OF_ONE || e == EXPONENT_SPECIAL {
        None
    } else if e >= EXPONENT_OF_UNITS {
        let shift = e - EXPONENT_OF_UNITS;
        if shift >= 11 {
            proof {
                if shift > 11 {
                    lemma_pow2_strictly_increases(11, shift as nat);
                }
                assert(s * pow2(shift as nat) >= 0x8000_0000_0000_0000) by (nonlinear_arith)
                    requires
                        s >= 0x10_0000_0000_0000,
                        pow2(shift as nat) >= 0x800,
                ;
            }
            None
        } else {
            proof {
                if shift < 10 {
                    lemma_pow2_strictly_increases(shift as nat, 10);
                }
                assert(s * pow2(shift as nat) < 0x8000_0000_0000_0000) by (nonlinear_arith)
                    requires
                        s < 0x20_0000_0000_0000,
                        0 < pow2(shift as nat) <= 0x400,
                ;
                lemma_u64_shl_is_mul(s, shift);
            }
            Some((negative, s << shift))
        }
    } else {
        let shift = EXPONENT_OF_UNITS - e;
        proof {
            if shift < 52 {
                lemma_pow2_strictly_increases(shift as nat, 52);
            }
            lemma_u64_shl_is_mul(1, shift);
            lemma_u64_low_bits_mask_is_mod(s, shift as nat);
            lemma_u64_shr_is_div(s, shift);
            assert(low_bits_mask(shift as nat) == ((1u64 << shift) - 1) as nat);
        }
        if s & ((1u64 << shift) - 1) != 0 {
            None
        } else {
            Some((negative, s >> shift))
        }
    }
}

/// The numeral of the double, if it is a whole number of a magnitude
/// below 2^63: the digits of the number itself, without a decimal point,
/// behind a minus sign where the number is below zero. The numeral of a
/// larger whole number is not written here, nor that of any other number.
pub open spec fn whole_numeral(bits: u64) -> Option<Seq<char>> {
    match whole(bits) {
        Some(v) => if -(WRITTEN_BELOW as int) < v < WRITTEN_BELOW as int {
            Some(integer_digits(v))
        } else {
            None
        },
        None => None,
    }
}

/// Writes the numeral of a double that is a whole number of a magnitude
/// below 2^63.
pub fn numeral_of_whole(bits: u64) -> (r: Option<String>)
    ensures
        match r {
            Some(text) => whole_numeral(bits) == Some(text@),
            None => whole_numeral(bits) is None,
        },
{
    match whole_number(bits) {
        Some((negative, magnitude)) => Some(signed_decimal(negative, magnitude)),
        None => None,
    }
}

/// The numeral of a whole number has no decimal point.
pub proof fn lemma_whole_numeral_has_no_point(bits: u64)
    requires
        whole_numeral(bits) is Some,
    ensures
        !whole_numeral(bits)->Some_0.contains('.'),
{
    lemma_integer_digits_have_no_point(whole(bits)->Some_0);
}

/// Negation changes the sign and nothing else: the place of the negated
/// number is the opposite one, and a NaN stays a NaN.
pub proof fn lemma_negate_mirrors(bits: u64)
    ensures
        is_nan(negated(bits)) == is_nan(bits),
        place(negated(bits)) == -place(bits),
        negated(negated(bits)) == bits,
{
    assert((bits ^ 0x8000_0000_0000_0000u64) & 0x7fff_ffff_ffff_ffffu64 == bits
        & 0x7fff_ffff_ffff_ffffu64) by (bit_vector);
    assert(((bits ^ 0x8000_0000_0000_0000u64) & 0x8000_0000_0000_0000u64 != 0) != (bits
        & 0x8000_0000_0000_0000u64 != 0)) by (bit_vector);
    assert((bits ^ 0x8000_0000_0000_0000u64) ^ 0x8000_0000_0000_0000u64 == bits) by (bit_vector);
}

} // verus!
