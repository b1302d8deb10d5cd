//! A software emulation of the IEEE 754 single-precision (binary32)
//! representation. A value is a bare 32-bit word; constructors pack the
//! sign, exponent and mantissa fields, predicates classify a word as NaN
//! or zero, and equality follows the IEEE rule that a NaN compares equal
//! to nothing. No native floating-point instruction is involved.

use vstd::prelude::*;

verus! {

use vstd::arithmetic::mul::lemma_mul_is_associative;
use vstd::arithmetic::power2::{pow2, lemma_pow2_adds, lemma2_to64};
use vstd::bits::lemma_u32_shl_is_mul;

/// The number of sign bits.
pub const SIGN_BITS: u32 = 1;
/// The number of exponent bits.
pub const EXPONENT_BITS: u32 = 8;
/// The number of mantissa bits.
pub const MANTISSA_BITS: u32 = 23;
/// Sign bit set to 1, all other bits 0; location of the sign bit.
pub const SIGN_BIT_LOC: u32 = 0x8000_0000;
/// All exponent bits set to 1, all others set to 0.
pub const EXPONENT_BITS_LOC: u32 = 0x7F80_0000;
/// All mantissa bits set to 1, all others set to 0.
pub const MANTISSA_BITS_LOC: u32 = 0x007F_FFFF;
/// Negative infinity.
pub const NEG_INFINITY: u32 = EXPONENT_BITS_LOC | SIGN_BIT_LOC;
/// Positive infinity.
pub const INFINITY: u32 = EXPONENT_BITS_LOC;
/// Minimum (read as an unsigned word) NaN pattern.
pub const NAN_MIN: u32 = EXPONENT_BITS_LOC + 1;
/// Maximum (read as an unsigned word) NaN pattern.
pub const NAN_MAX: u32 = EXPONENT_BITS_LOC | MANTISSA_BITS_LOC;
/// The exponent bias of a normalized number.
pub const BIAS: i32 = 127;
/// The exponent bias of a subnormal number.
pub const SUB_BIAS: i32 = 126;
/// The position of the mantissa's implicit leading one.
pub const MANTISSA_LEADING_ONE: u32 = 0x0080_0000;

/// The 8-bit exponent field of a word.
pub open spec fn exponent_field(bits: u32) -> u32 {
    (bits >> 23u32) & 0xFFu32
}

/// The 23-bit mantissa field of a word.
pub open spec fn mantissa_field(bits: u32) -> u32 {
    bits & MANTISSA_BITS_LOC
}

/// A word is NaN when its exponent field is all ones and its mantissa
/// field is nonzero.
pub open spec fn spec_is_nan(bits: u32) -> bool {
    bits & EXPONENT_BITS_LOC == EXPONENT_BITS_LOC && bits & MANTISSA_BITS_LOC > 0
}

/// A word is zero when every bit outside the sign bit is clear: +0 and -0.
pub open spec fn spec_is_zero(bits: u32) -> bool {
    !SIGN_BIT_LOC & bits == 0
}

/// Two words are equal when neither is NaN and the bit patterns agree.
pub open spec fn spec_eq(a: u32, b: u32) -> bool {
    !spec_is_nan(a) && !spec_is_nan(b) && a == b
}

/// The bias the packing routine applies to an unbiased exponent: 126 for
/// the single sentinel input -126 (how a zero exponent field, and with it
/// a subnormal pattern, is produced), 127 otherwise.
pub open spec fn spec_bias_for(exp: i32) -> int {
    if exp == -SUB_BIAS {
        SUB_BIAS as int
    } else {
        BIAS as int
    }
}

/// The exponent field that packing an unbiased exponent yields: the low
/// eight bits of the biased exponent. Out-of-range inputs wrap silently.
pub open spec fn spec_biased_exponent(exp: i32) -> int {
    (exp + spec_bias_for(exp)) % 256
}

/// The word packed from a sign indicator (only its sign-bit position is
/// consulted), an unbiased exponent and a mantissa (only its low 23 bits
/// are consulted).
pub open spec fn spec_build(sign: u32, exp: i32, mantissa: u32) -> u32 {
    (sign & SIGN_BIT_LOC) | ((spec_biased_exponent(exp) as u32) << 23u32) | (mantissa
        & MANTISSA_BITS_LOC)
}

/// The two's complement of a word: how a negative input's magnitude is
/// recovered from its bit pattern.
pub open spec fn spec_twos_comp(i: u32) -> u32 {
    ((0x1_0000_0000 - i) % 0x1_0000_0000) as u32
}

/// How many of the at most 23 left shifts normalization performs from a
/// given state until the implicit-leading-one position is set.
pub open spec fn norm_shift_from(value: u32, shifts: u32) -> u32
    decreases 23 - shifts,
{
    if value & MANTISSA_LEADING_ONE != 0 || shifts >= 23 {
        shifts
    } else {
        norm_shift_from(value << 1u32, (shifts + 1) as u32)
    }
}

/// How many left shifts normalization performs on a magnitude.
pub open spec fn norm_shift(mag: u32) -> u32 {
    norm_shift_from(mag, 0)
}

/// The word that normalizing a magnitude produces: the magnitude is
/// shifted left until its implicit leading one is in place, the shift
/// count fixes the exponent field, and the shifted low 23 bits form the
/// mantissa field. The sign bit stays clear.
pub open spec fn norm_bits(mag: u32) -> u32 {
    (((BIAS as u32 + MANTISSA_BITS - norm_shift(mag)) as u32) << 23u32) | ((mag << norm_shift(mag))
        & MANTISSA_BITS_LOC)
}

/// What converting an unsigned magnitude returns: zero for zero, the
/// canonical NaN past the accepted range, the normalized word otherwise.
pub open spec fn spec_from_uint(v: u32) -> u32 {
    if v == 0 {
        0
    } else if v > 0xFFFFFF * 2 {
        NAN_MIN
    } else {
        norm_bits(v)
    }
}

/// The magnitude of a signed input.
pub open spec fn spec_magnitude(v: i32) -> u32 {
    if v < 0 {
        (-(v as int)) as u32
    } else {
        v as u32
    }
}

/// What converting a signed input returns: as for the unsigned
/// conversion, on the magnitude, with the sign bit set for a negative
/// input.
pub open spec fn spec_from_sint(v: i32) -> u32 {
    if v == 0 {
        0
    } else if v > 0xFFFFFF * 2 || v < -(0xFFFFFF * 2) {
        NAN_MIN
    } else if v < 0 {
        SIGN_BIT_LOC | norm_bits(spec_magnitude(v))
    } else {
        norm_bits(spec_magnitude(v))
    }
}

/// Normalization never shifts past the 23 mantissa positions.
proof fn lemma_norm_shift_from_range(value: u32, shifts: u32)
    requires
        shifts <= 23,
    ensures
        shifts <= norm_shift_from(value, shifts) <= 23,
    decreases 23 - shifts,
{
    if !(value & MANTISSA_LEADING_ONE != 0 || shifts >= 23) {
        lemma_norm_shift_from_range(value << 1u32, (shifts + 1) as u32);
    }
}

/// A normalized word is neither NaN nor zero: its exponent field lies
/// between 127 and 150, so it is never all ones and never all zeros.
proof fn lemma_norm_bits_class(mag: u32)
    ensures
        !spec_is_nan(norm_bits(mag)),
        !spec_is_zero(norm_bits(mag)),
        norm_bits(mag) & SIGN_BIT_LOC == 0,
        exponent_field(norm_bits(mag)) == BIAS as u32 + MANTISSA_BITS - norm_shift(mag),
        mantissa_field(norm_bits(mag)) == (mag << norm_shift(mag)) & MANTISSA_BITS_LOC,
{
    lemma_norm_shift_from_range(mag, 0);
    let s = norm_shift(mag);
    let e = (BIAS as u32 + MANTISSA_BITS - s) as u32;
    assert(127 <= e <= 150);
    assert({
        let bits = (e << 23u32) | ((mag << s) & 0x007F_FFFFu32);
        &&& !(bits & 0x7F80_0000u32 == 0x7F80_0000u32 && bits & 0x007F_FFFFu32 > 0)
        &&& !(!0x8000_0000u32 & bits == 0)
        &&& bits & 0x8000_0000u32 == 0
        &&& (bits >> 23u32) & 0xFFu32 == e
        &&& bits & 0x007F_FFFFu32 == (mag << s) & 0x007F_FFFFu32
    }) by (bit_vector)
        requires
            127u32 <= e <= 150u32,
            s <= 23u32,
    ;
}

/// Packing only consults the low eight bits of the biased exponent, so the
/// field the packed word carries is the biased exponent mod 256.
proof fn lemma_build_packs(sign: u32, exp: i32, e_low: u32, bias: u32, mantissa: u32, value: u32)
    requires
        bias == spec_bias_for(exp),
        e_low == exp as u32,
        value == (sign & SIGN_BIT_LOC) | (((((e_low & 0xFF) + bias) as u32) << MANTISSA_BITS)
            & EXPONENT_BITS_LOC) | (mantissa & MANTISSA_BITS_LOC),
    ensures
        value == spec_build(sign, exp, mantissa),
        value & SIGN_BIT_LOC == sign & SIGN_BIT_LOC,
        exponent_field(value) == spec_biased_exponent(exp),
        mantissa_field(value) == mantissa & MANTISSA_BITS_LOC,
{
    assert(bias == 126 || bias == 127);
    assert(((((e_low & 0xFF) + bias) as u32) << 23u32) & 0x7F80_0000u32 == (((exp + bias) % 256)
        as u32) << 23u32) by (bit_vector)
        requires
            e_low == exp as u32,
            bias == 126u32 || bias == 127u32,
    ;
    let f = ((exp + bias) % 256) as u32;
    assert(0 <= (exp + bias) % 256 < 256);
    assert(f < 256 ==> {
        let packed = (sign & 0x8000_0000u32) | (f << 23u32) | (mantissa & 0x007F_FFFFu32);
        &&& packed & 0x8000_0000u32 == sign & 0x8000_0000u32
        &&& (packed >> 23u32) & 0xFFu32 == f
        &&& packed & 0x007F_FFFFu32 == mantissa & 0x007F_FFFFu32
    }) by (bit_vector);
}

/// Negates a word in two's complement.
pub fn twos_comp(i: u32) -> (r: u32)
    ensures
        r == spec_twos_comp(i),
{
    proof {
        assert((!i).wrapping_add(1) == (((0x1_0000_0000 - i) % 0x1_0000_0000) as u32))
            by (bit_vector);
    }
    (!i).wrapping_add(1)
}

/// The sole entity: an IEEE 754 single-precision bit pattern.
pub struct Sink {
    pub value: u32,
}

impl View for Sink {
    type V = u32;

    open spec fn view(&self) -> u32 {
        self.value
    }
}

impl Sink {
    /// True exactly on the NaN patterns: exponent field all ones, mantissa
    /// field nonzero.
    pub fn is_nan(&self) -> (r: bool)
        ensures
            r == spec_is_nan(self@),
    {
        (self.value & EXPONENT_BITS_LOC == EXPONENT_BITS_LOC)
            && (self.value & MANTISSA_BITS_LOC > 0)
    }

    /// True exactly on the two zero patterns, +0 and -0.
    pub fn is_zero(&self) -> (r: bool)
        ensures
            r == spec_is_zero(self@),
    {
        (!SIGN_BIT_LOC & self.value) == 0
    }

    /// Wraps a 32-bit word verbatim; the common low-level entry point.
    pub fn build_literal(m: u32) -> (r: Self)
        ensures
            r@ == m,
    {
        Self { value: m }
    }

    /// Packs a field triple. The exponent is unbiased; bias 127 is added,
    /// except that the sentinel input -126 gets bias 126 and so encodes
    /// the zero exponent field. No range check: an exponent outside the
    /// field wraps to its low eight bits.
    pub fn build(sign: u32, exp: i32, mantissa: u32) -> (r: Self)
        ensures
            r@ == spec_build(sign, exp, mantissa),
            r@ & SIGN_BIT_LOC == sign & SIGN_BIT_LOC,
            exponent_field(r@) == spec_biased_exponent(exp),
            mantissa_field(r@) == mantissa & MANTISSA_BITS_LOC,
    {
        let bias: u32 = if exp == -SUB_BIAS {
            SUB_BIAS as u32
        } else {
            BIAS as u32
        };
        let e_low: u32 = #[verifier::truncate] (exp as u32);
        proof {
            assert(e_low & 0xFF <= 0xFF) by (bit_vector);
        }
        let biased: u32 = (e_low & 0xFF) + bias;
        let value: u32 = (sign & SIGN_BIT_LOC) | ((biased << MANTISSA_BITS) & EXPONENT_BITS_LOC)
            | (mantissa & MANTISSA_BITS_LOC);
        proof {
            lemma_build_packs(sign, exp, e_low, bias, mantissa, value);
        }
        Self { value }
    }

    /// The canonical NaN: the minimum-valued NaN pattern.
    pub fn create_nan() -> (r: Self)
        ensures
            r@ == NAN_MIN,
            spec_is_nan(r@),
            !spec_is_zero(r@),
    {
        proof {
            assert(spec_is_nan(NAN_MIN) && !spec_is_zero(NAN_MIN)) by (bit_vector);
        }
        Self { value: NAN_MIN }
    }

    /// Positive zero: the all-zero pattern.
    pub fn new() -> (r: Self)
        ensures
            r@ == 0,
            spec_is_zero(r@),
            !spec_is_nan(r@),
    {
        proof {
            assert(spec_is_zero(0u32) && !spec_is_nan(0u32)) by (bit_vector);
        }
        Self { value: 0 }
    }

    /// Converts an unsigned magnitude to the nearest representable word
    /// by normalization. Zero maps to +0; a magnitude above 0xFFFFFF * 2,
    /// which the shift-based normalization cannot handle, degrades to the
    /// canonical NaN sentinel, the sole failure signal.
    pub fn from_uint(v: u32) -> (r: Self)
        ensures
            r@ == spec_from_uint(v),
            spec_is_nan(r@) <==> v > 0xFFFFFF * 2,
            spec_is_zero(r@) <==> v == 0,
    {
        if v == 0 {
            Self::new()
        } else if v > 0xFFFFFF * 2 {
            Self::create_nan()
        } else {
            proof {
                assert(v << 0u32 == v) by (bit_vector);
            }
            let mut value = v;
            let mut shifts: u32 = 0;
            while (value & MANTISSA_LEADING_ONE) == 0 && shifts < MANTISSA_BITS
                invariant
                    shifts <= 23,
                    value == v << shifts,
                    norm_shift_from(value, shifts) == norm_shift(v),
                decreases 23 - shifts,
            {
                proof {
                    assert(shifts < 23 ==> (v << shifts) << 1u32 == v << ((shifts + 1) as u32))
                        by (bit_vector);
                }
                shifts += 1;
                value = value << 1;
            }
            proof {
                assert(norm_shift(v) == shifts);
                lemma_norm_bits_class(v);
            }
            let exponent: u32 = BIAS as u32 + MANTISSA_BITS - shifts;
            Self::build_literal((exponent << MANTISSA_BITS) | (value & MANTISSA_BITS_LOC))
        }
    }

    /// Converts a signed integer: the magnitude is normalized as in the
    /// unsigned conversion and the sign bit records a negative input.
    /// Inputs past the accepted magnitude range degrade to the canonical
    /// NaN sentinel; zero maps to +0.
    pub fn from_sint(v: i32) -> (r: Self)
        ensures
            r@ == spec_from_sint(v),
            spec_is_nan(r@) <==> (v > 0xFFFFFF * 2 || v < -(0xFFFFFF * 2)),
            spec_is_zero(r@) <==> v == 0,
    {
        if v == 0 {
            Self::new()
        } else if (v > 0xFFFFFF * 2) || (v < -(0xFFFFFF * 2)) {
            Self::create_nan()
        } else {
            let mut value: u32 = if v < 0 {
                proof {
                    assert(v < 0 ==> spec_twos_comp((v as u32)) == ((-(v as int)) as u32))
                        by (bit_vector);
                }
                twos_comp(#[verifier::truncate] (v as u32))
            } else {
                v as u32
            };
            let ghost mag: u32 = value;
            proof {
                assert(mag == spec_magnitude(v));
                assert(mag << 0u32 == mag) by (bit_vector);
            }
            let mut shifts: u32 = 0;
            while (value & MANTISSA_LEADING_ONE) == 0 && shifts < MANTISSA_BITS
                invariant
                    shifts <= 23,
                    value == mag << shifts,
                    norm_shift_from(value, shifts) == norm_shift(mag),
                decreases 23 - shifts,
            {
                proof {
                    assert(shifts < 23 ==> (mag << shifts) << 1u32 == mag << ((shifts + 1) as u32))
                        by (bit_vector);
                }
                shifts += 1;
                value = value << 1;
            }
            proof {
                assert(norm_shift(mag) == shifts);
                lemma_norm_bits_class(mag);
            }
            let exponent: u32 = BIAS as u32 + MANTISSA_BITS - shifts;
            let sgn: u32 = if v < 0 {
                SIGN_BIT_LOC
            } else {
                0
            };
            proof {
                let nb = norm_bits(mag);
                assert((sgn | (exponent << 23u32)) | (value & 0x007F_FFFFu32) == sgn | ((exponent
                    << 23u32) | (value & 0x007F_FFFFu32))) by (bit_vector);
                assert(0u32 | nb == nb) by (bit_vector);
                assert(spec_is_nan(0x8000_0000u32 | nb) == spec_is_nan(nb) && spec_is_zero(
                    0x8000_0000u32 | nb,
                ) == spec_is_zero(nb)) by (bit_vector);
            }
            Self::build_literal(sgn | (exponent << MANTISSA_BITS) | (value & MANTISSA_BITS_LOC))
        }
    }
}

impl PartialEq for Sink {
    /// IEEE 754 equality: two patterns are equal only when neither is NaN
    /// and the raw words are identical. A NaN pattern equals nothing, not
    /// even itself; +0 and -0 are distinct words, so they compare unequal.
    fn eq(&self, other: &Self) -> (r: bool) {
        !(self.is_nan() || other.is_nan()) && (self.value == other.value)
    }
}

impl vstd::std_specs::cmp::PartialEqSpecImpl for Sink {
    open spec fn obeys_eq_spec() -> bool {
        true
    }

    open spec fn eq_spec(&self, other: &Sink) -> bool {
        spec_eq(self@, other@)
    }
}

/// The three fields tile the 32-bit word exactly: one sign bit, eight
/// exponent bits and 23 mantissa bits, with no overlap and no gap.
pub proof fn lemma_field_layout()
    ensures
        SIGN_BITS + EXPONENT_BITS + MANTISSA_BITS == 32,
        SIGN_BIT_LOC | EXPONENT_BITS_LOC | MANTISSA_BITS_LOC == u32::MAX,
        SIGN_BIT_LOC & EXPONENT_BITS_LOC == 0,
        SIGN_BIT_LOC & MANTISSA_BITS_LOC == 0,
        EXPONENT_BITS_LOC & MANTISSA_BITS_LOC == 0,
{
    assert(0x8000_0000u32 | 0x7F80_0000u32 | 0x007F_FFFFu32 == 0xFFFF_FFFFu32
        && 0x8000_0000u32 & 0x7F80_0000u32 == 0 && 0x8000_0000u32 & 0x007F_FFFFu32 == 0
        && 0x7F80_0000u32 & 0x007F_FFFFu32 == 0) by (bit_vector);
}

/// `is_nan` holds exactly on the patterns whose exponent field is all
/// ones and whose mantissa field is nonzero; both infinities, where the
/// mantissa field is zero, are excluded.
pub proof fn lemma_nan_characterization(bits: u32)
    ensures
        spec_is_nan(bits) <==> (exponent_field(bits) == 0xFF && mantissa_field(bits) != 0),
        spec_is_nan(NAN_MIN),
        spec_is_nan(NAN_MAX),
        !spec_is_nan(INFINITY),
        !spec_is_nan(NEG_INFINITY),
{
    assert(spec_is_nan(bits) <==> ((bits >> 23u32) & 0xFFu32 == 0xFF && bits & 0x007F_FFFFu32
        != 0)) by (bit_vector);
    assert(0x7F80_0000u32 | 0x007F_FFFFu32 == 0x7FFF_FFFFu32 && 0x7F80_0000u32 | 0x8000_0000u32
        == 0xFF80_0000u32) by (bit_vector);
    assert(spec_is_nan(0x7F80_0001u32) && spec_is_nan(0x7FFF_FFFFu32) && !spec_is_nan(
        0x7F80_0000u32,
    ) && !spec_is_nan(0xFF80_0000u32)) by (bit_vector);
}

/// `is_zero` holds exactly on the two zero patterns, +0 and -0: every bit
/// outside the sign bit is clear.
pub proof fn lemma_zero_characterization(bits: u32)
    ensures
        spec_is_zero(bits) <==> (bits == 0 || bits == SIGN_BIT_LOC),
{
    assert((!0x8000_0000u32 & bits == 0) <==> (bits == 0 || bits == 0x8000_0000u32))
        by (bit_vector);
}

/// Equality is irreflexive on NaN: a NaN pattern compares equal to
/// nothing, another NaN or itself included.
pub proof fn lemma_nan_never_equal(a: Sink, b: Sink)
    requires
        spec_is_nan(a@) || spec_is_nan(b@),
    ensures
        !spec_eq(a@, b@),
        !spec_eq(b@, a@),
{
}

/// As long as a magnitude keeps headroom for the pending shifts,
/// normalization lands the product of the magnitude and two to the shift
/// count in the implicit-leading-one window.
proof fn lemma_norm_rec(value: u32, shifts: u32)
    requires
        shifts <= 23,
        value < 0x100_0000,
        value >= (1u32 << shifts),
    ensures
        ({
            let s = norm_shift_from(value, shifts);
            &&& shifts <= s <= 23
            &&& 0x80_0000 <= value * pow2((s - shifts) as nat) < 0x100_0000
        }),
    decreases 23 - shifts,
{
    lemma_norm_shift_from_range(value, shifts);
    let s = norm_shift_from(value, shifts);
    if value & MANTISSA_LEADING_ONE != 0 || shifts >= 23 {
        assert(s == shifts);
        assert(pow2(0) == 1) by {
            lemma2_to64();
        }
        assert(value & 0x80_0000u32 != 0 ==> value >= 0x80_0000u32) by (bit_vector);
        assert(shifts >= 23 ==> value >= 0x80_0000u32) by (bit_vector)
            requires
                shifts <= 23u32,
                value >= (1u32 << shifts),
        ;
        assert(0x80_0000 <= value * pow2((s - shifts) as nat) < 0x100_0000);
    } else {
        let value2 = value << 1u32;
        assert(value2 == value * 2 && value2 < 0x100_0000u32 && value2 >= (1u32 << ((shifts + 1)
            as u32))) by (bit_vector)
            requires
                value2 == (value << 1u32),
                value < 0x100_0000u32,
                value & 0x80_0000u32 == 0,
                value >= (1u32 << shifts),
                shifts < 23u32,
        ;
        lemma_norm_rec(value2, (shifts + 1) as u32);
        let s2 = norm_shift_from(value2, (shifts + 1) as u32);
        assert(s2 == s);
        let d = (s - shifts) as nat;
        let d2 = (s2 - ((shifts + 1) as u32)) as nat;
        assert(0x80_0000 <= value2 * pow2(d2) < 0x100_0000);
        assert(d == d2 + 1);
        lemma_pow2_adds(1, d2);
        assert(pow2(1) == 2) by {
            lemma2_to64();
        }
        assert(pow2(d) == 2 * pow2(d2));
        assert(value * (2 * pow2(d2)) == (value * 2) * pow2(d2)) by {
            lemma_mul_is_associative(value as int, 2, pow2(d2) as int);
        }
        assert(value * pow2(d) == value2 * pow2(d2));
        assert(0x80_0000 <= value * pow2((s - shifts) as nat) < 0x100_0000);
    }
}

/// On a magnitude the 24-bit window represents exactly, the normalized
/// word's fields reconstruct the magnitude: the implicit leading one plus
/// the mantissa field equals the magnitude scaled by the power of two the
/// exponent field encodes.
proof fn lemma_norm_bits_exact(mag: u32)
    requires
        1 <= mag <= 0xFFFFFF,
    ensures
        ({
            let bits = norm_bits(mag);
            let e = exponent_field(bits);
            &&& 127 <= e <= 150
            &&& MANTISSA_LEADING_ONE + mantissa_field(bits) == mag * pow2((150 - e) as nat)
        }),
{
    assert(1u32 << 0u32 == 1) by (bit_vector);
    lemma_norm_rec(mag, 0);
    let s = norm_shift(mag);
    lemma_u32_shl_is_mul(mag, s);
    let w = mag << s;
    lemma_norm_bits_class(mag);
    assert(0x80_0000 <= w < 0x100_0000 ==> 0x80_0000 + (w & 0x007F_FFFFu32) == w) by (bit_vector);
}

/// Round trip for the unsigned conversion: within the exactly
/// representable magnitude range, decoding the stored exponent and
/// mantissa fields reproduces the input with no rounding loss.
pub proof fn lemma_from_uint_round_trip(v: u32)
    requires
        1 <= v <= 0xFFFFFF,
    ensures
        ({
            let bits = spec_from_uint(v);
            let e = exponent_field(bits);
            &&& bits & SIGN_BIT_LOC == 0
            &&& 127 <= e <= 150
            &&& MANTISSA_LEADING_ONE + mantissa_field(bits) == v * pow2((150 - e) as nat)
        }),
{
    lemma_norm_bits_exact(v);
    lemma_norm_bits_class(v);
}

/// Round trip for the signed conversion: within the exactly representable
/// magnitude range, the sign bit records the input's sign and decoding
/// the stored fields reproduces the input's magnitude exactly.
pub proof fn lemma_from_sint_round_trip(v: i32)
    requires
        1 <= v <= 0xFFFFFF || -0xFFFFFF <= v <= -1,
    ensures
        ({
            let bits = spec_from_sint(v);
            let e = exponent_field(bits);
            &&& ((bits & SIGN_BIT_LOC != 0) <==> v < 0)
            &&& 127 <= e <= 150
            &&& MANTISSA_LEADING_ONE + mantissa_field(bits) == spec_magnitude(v) * pow2(
                (150 - e) as nat,
            )
            &&& spec_magnitude(v) == (if v < 0 {
                -(v as int)
            } else {
                v as int
            })
        }),
{
    let mag = spec_magnitude(v);
    lemma_norm_bits_exact(mag);
    lemma_norm_bits_class(mag);
    if v < 0 {
        let nb = norm_bits(mag);
        assert(nb & 0x8000_0000u32 == 0 ==> ((0x8000_0000u32 | nb) >> 23u32) & 0xFFu32 == (nb
            >> 23u32) & 0xFFu32 && (0x8000_0000u32 | nb) & 0x007F_FFFFu32 == nb & 0x007F_FFFFu32
            && (0x8000_0000u32 | nb) & 0x8000_0000u32 != 0) by (bit_vector);
    }
}

} // verus!
