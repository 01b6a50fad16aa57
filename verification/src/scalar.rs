//! Single-precision quantities as exact bit patterns.
//!
//! Window geometry arrives from the host as single-precision numbers. The
//! library never does rounding arithmetic on them: it stores their bit patterns
//! and compares them. A pattern that is not a NaN denotes a whole number of
//! units, where one pixel is `2^149` units, so every comparison has an exact
//! meaning over the integers. The two infinities denote the values that continue
//! the same formula, which lie beyond every finite pattern.
use vstd::arithmetic::power2::{lemma_pow2_adds, lemma_pow2_pos, pow2};
use vstd::prelude::*;

verus! {

/// Bit pattern of a single-precision number.
///
/// `==` compares patterns; [`Scalar::le`] and [`Scalar::same_value`] compare the
/// numbers that the patterns denote.
#[derive(Clone, Copy, Debug, PartialEq, Eq, Structural)]
pub struct Scalar {
    /// The pattern: sign, eight exponent bits, twenty-three fraction bits.
    pub bits: u32,
}

/// Weight of the sign bit.
pub const SIGN_BIT: u32 = 0x8000_0000;

/// Magnitude pattern of the infinities; anything above it is a NaN.
pub const INFINITY_BITS: u32 = 0x7f80_0000;

/// Units denoted by a magnitude pattern (a pattern without its sign bit).
pub open spec fn magnitude_units(magnitude: nat) -> nat {
    let exponent = magnitude / 0x80_0000;
    let fraction = magnitude % 0x80_0000;
    if exponent == 0 {
        fraction
    } else {
        (0x80_0000 + fraction) * pow2((exponent - 1) as nat)
    }
}

/// Number of units in one pixel.
pub open spec fn pixel_units() -> nat {
    pow2(149)
}

impl Scalar {
    /// The pattern without its sign bit.
    pub open spec fn magnitude(self) -> nat {
        (self.bits as nat) % (SIGN_BIT as nat)
    }

    /// Whether the pattern denotes no number.
    pub open spec fn is_nan_spec(self) -> bool {
        self.magnitude() > INFINITY_BITS
    }

    /// The number denoted by the pattern, in units.
    pub open spec fn units(self) -> int {
        if self.bits >= SIGN_BIT {
            -(magnitude_units(self.magnitude()) as int)
        } else {
            magnitude_units(self.magnitude()) as int
        }
    }

    /// Whether `self` denotes a number no greater than the one `other` denotes.
    pub open spec fn le_spec(self, other: Scalar) -> bool {
        &&& !self.is_nan_spec()
        &&& !other.is_nan_spec()
        &&& self.units() <= other.units()
    }

    /// Whether both patterns denote the same number.
    pub open spec fn same_value_spec(self, other: Scalar) -> bool {
        &&& !self.is_nan_spec()
        &&& !other.is_nan_spec()
        &&& self.units() == other.units()
    }

    /// The pattern of zero.
    pub fn zero() -> (r: Scalar)
        ensures
            r.bits == 0,
            r.units() == 0,
            !r.is_nan_spec(),
    {
        Scalar { bits: 0 }
    }

    /// Whether the pattern denotes no number.
    pub fn is_nan(self) -> (r: bool)
        ensures
            r == self.is_nan_spec(),
    {
        let magnitude: u32 = self.bits % SIGN_BIT;
        magnitude > INFINITY_BITS
    }

    /// A key whose integer order is the order of the denoted numbers.
    fn order_key(self) -> (r: i64)
        ensures
            r == self.order_key_spec(),
    {
        let magnitude: i64 = (self.bits % SIGN_BIT) as i64;
        if self.bits >= SIGN_BIT {
            -magnitude
        } else {
            magnitude
        }
    }

    spec fn order_key_spec(self) -> int {
        if self.bits >= SIGN_BIT {
            -(self.magnitude() as int)
        } else {
            self.magnitude() as int
        }
    }

    /// Compares the denoted numbers; a NaN is never comparable.
    pub fn le(self, other: Scalar) -> (r: bool)
        ensures
            r == self.le_spec(other),
    {
        proof {
            lemma_order_key(self, other);
            lemma_order_key(other, self);
        }
        !self.is_nan() && !other.is_nan() && self.order_key() <= other.order_key()
    }

    /// Compares the denoted numbers for equality; a NaN equals nothing and the
    /// two zeros are equal.
    pub fn same_value(self, other: Scalar) -> (r: bool)
        ensures
            r == self.same_value_spec(other),
    {
        proof {
            lemma_order_key(self, other);
            lemma_order_key(other, self);
        }
        !self.is_nan() && !other.is_nan() && self.order_key() == other.order_key()
    }
}

/// One step up in the magnitude pattern is a strict step up in units.
proof fn lemma_magnitude_step(magnitude: nat)
    ensures
        magnitude_units(magnitude) < magnitude_units(magnitude + 1),
{
    let e = magnitude / 0x80_0000;
    let f = magnitude % 0x80_0000;
    assert(magnitude == e * 0x80_0000 + f);
    if f + 1 < 0x80_0000 {
        assert((magnitude + 1) / 0x80_0000 == e);
        assert((magnitude + 1) % 0x80_0000 == f + 1);
        if e > 0 {
            let p = pow2((e - 1) as nat);
            lemma_pow2_pos((e - 1) as nat);
            assert((0x80_0000 + f) * p < (0x80_0000 + (f + 1)) * p) by (nonlinear_arith)
                requires
                    p > 0,
            ;
            assert(magnitude_units(magnitude) == (0x80_0000 + f) * p);
            assert(magnitude_units(magnitude + 1) == (0x80_0000 + (f + 1)) * p);
        }
    } else {
        assert((magnitude + 1) / 0x80_0000 == e + 1);
        assert((magnitude + 1) % 0x80_0000 == 0);
        if e > 0 {
            let p = pow2((e - 1) as nat);
            lemma_pow2_pos((e - 1) as nat);
            lemma_pow2_adds((e - 1) as nat, 1);
            vstd::arithmetic::power2::lemma2_to64();
            assert(pow2(e) == p * 2);
            assert((0x80_0000 + f) * p < 0x80_0000 * (p * 2)) by (nonlinear_arith)
                requires
                    p > 0,
                    f < 0x80_0000,
            ;
            assert(magnitude_units(magnitude) == (0x80_0000 + f) * p);
            assert(magnitude_units(magnitude + 1) == (0x80_0000 + 0) * pow2((e + 1 - 1) as nat));
        } else {
            vstd::arithmetic::power2::lemma2_to64();
            assert(pow2(0) == 1);
        }
    }
}

/// A larger magnitude pattern denotes more units.
proof fn lemma_magnitude_monotone(a: nat, b: nat)
    requires
        a < b,
    ensures
        magnitude_units(a) < magnitude_units(b),
    decreases b - a,
{
    lemma_magnitude_step(a);
    if a + 1 < b {
        lemma_magnitude_monotone(a + 1, b);
    }
}

/// The integer key orders patterns exactly as the numbers they denote.
proof fn lemma_order_key(a: Scalar, b: Scalar)
    ensures
        a.order_key_spec() < b.order_key_spec() <==> a.units() < b.units(),
        a.order_key_spec() == b.order_key_spec() ==> a.units() == b.units(),
{
    let (ma, mb) = (a.magnitude(), b.magnitude());
    if ma < mb {
        lemma_magnitude_monotone(ma, mb);
    } else if mb < ma {
        lemma_magnitude_monotone(mb, ma);
    }
    if ma > 0 {
        lemma_magnitude_monotone(0, ma);
    }
    if mb > 0 {
        lemma_magnitude_monotone(0, mb);
    }
    assert(magnitude_units(0) == 0);
}

/// A pattern with a given exponent and significand denotes the significand scaled
/// by that exponent.
proof fn lemma_normal_units(magnitude: nat, exponent: nat, significand: nat)
    requires
        exponent >= 1,
        significand >= 0x80_0000,
        significand < 0x100_0000,
        magnitude == exponent * 0x80_0000 + (significand - 0x80_0000),
    ensures
        magnitude_units(magnitude) == significand * pow2((exponent - 1) as nat),
{
    assert(magnitude / 0x80_0000 == exponent);
    assert(magnitude % 0x80_0000 == significand - 0x80_0000);
}

/// A whole number of pixels between two powers of two is denoted by the pattern
/// with its exponent and fraction.
pub proof fn lemma_whole_pixels(bits: u32, pixels: nat, exponent: nat)
    requires
        127 <= exponent <= 150,
        pow2((exponent - 127) as nat) <= pixels,
        pixels < pow2((exponent - 126) as nat),
        bits < INFINITY_BITS,
        bits == exponent * 0x80_0000 + (pixels * pow2((150 - exponent) as nat) - 0x80_0000),
    ensures
        (Scalar { bits }).units() == pixels * pixel_units(),
        !(Scalar { bits }).is_nan_spec(),
{
    let shift = (150 - exponent) as nat;
    let significand = pixels * pow2(shift);
    vstd::arithmetic::power2::lemma2_to64();
    lemma_pow2_adds((exponent - 127) as nat, shift);
    lemma_pow2_adds((exponent - 126) as nat, shift);
    vstd::arithmetic::power2::lemma_pow2_pos(shift);
    assert(significand >= pow2(23) && significand < pow2(24)) by (nonlinear_arith)
        requires
            significand == pixels * pow2(shift),
            pow2((exponent - 127) as nat) <= pixels,
            pixels < pow2((exponent - 126) as nat),
            pow2((exponent - 127) as nat) * pow2(shift) == pow2(23),
            pow2((exponent - 126) as nat) * pow2(shift) == pow2(24),
            pow2(shift) > 0,
    ;
    lemma_normal_units(bits as nat, exponent, significand);
    lemma_pow2_adds(shift, (exponent - 1) as nat);
    assert(pixels * pow2(shift) * pow2((exponent - 1) as nat) == pixels * (pow2(shift) * pow2(
        (exponent - 1) as nat,
    ))) by (nonlinear_arith);
}

/// Pattern of four.
pub const FOUR_PIXELS_BITS: u32 = 0x4080_0000;

/// Pattern of the gap between one and the next larger single-precision number, `2^-23`.
pub const SCALE_TOLERANCE_BITS: u32 = 0x3400_0000;

/// The pattern of the largest finite number.
pub const LARGEST_BITS: u32 = 0x7f7f_ffff;

/// [`FOUR_PIXELS_BITS`] denotes four pixels exactly.
pub proof fn law_four_pixels()
    ensures
        (Scalar { bits: FOUR_PIXELS_BITS }).units() == 4 * pixel_units(),
        !(Scalar { bits: FOUR_PIXELS_BITS }).is_nan_spec(),
{
    lemma_normal_units(0x4080_0000, 129, 0x80_0000);
    lemma_pow2_adds(23, 128);
    lemma_pow2_adds(2, 149);
    vstd::arithmetic::power2::lemma2_to64();
    assert(0x80_0000 * pow2(128) == pow2(151));
}

/// [`SCALE_TOLERANCE_BITS`] denotes one pixel divided by `2^23`.
pub proof fn law_scale_tolerance()
    ensures
        (Scalar { bits: SCALE_TOLERANCE_BITS }).units() * pow2(23) == pixel_units(),
        !(Scalar { bits: SCALE_TOLERANCE_BITS }).is_nan_spec(),
{
    lemma_normal_units(0x3400_0000, 104, 0x80_0000);
    lemma_pow2_adds(23, 103);
    lemma_pow2_adds(126, 23);
    vstd::arithmetic::power2::lemma2_to64();
    assert(0x80_0000 * pow2(103) == pow2(126));
}

/// [`LARGEST_BITS`] is at least every finite number, so nothing finite lies above it.
pub proof fn law_largest(other: Scalar)
    requires
        other.magnitude() < INFINITY_BITS,
    ensures
        other.le_spec(Scalar { bits: LARGEST_BITS }),
{
    lemma_order_key(Scalar { bits: LARGEST_BITS }, other);
    lemma_order_key(other, Scalar { bits: LARGEST_BITS });
}

/// Comparison is a total order on the patterns that denote numbers.
pub proof fn law_le_total_order(a: Scalar, b: Scalar, c: Scalar)
    requires
        !a.is_nan_spec(),
        !b.is_nan_spec(),
        !c.is_nan_spec(),
    ensures
        a.le_spec(a),
        a.le_spec(b) || b.le_spec(a),
        a.le_spec(b) && b.le_spec(c) ==> a.le_spec(c),
        a.le_spec(b) && b.le_spec(a) <==> a.same_value_spec(b),
{
}

/// Patterns denote numbers as single precision does: below the sign bit a larger pattern
/// denotes a larger number, up to infinity and no further; the sign bit turns a number
/// into its opposite; and what lies above infinity is no number and compares with
/// nothing.
pub proof fn law_patterns_denote_in_order(a: u32, b: u32)
    requires
        a < 0x8000_0000,
        b < 0x8000_0000,
    ensures
        (Scalar { bits: a }).units() >= 0,
        a < b <==> (Scalar { bits: a }).units() < (Scalar { bits: b }).units(),
        (Scalar { bits: (a + 0x8000_0000) as u32 }).units() == -(Scalar { bits: a }).units(),
        (Scalar { bits: a }).is_nan_spec() <==> a > 0x7f80_0000,
        (Scalar { bits: (a + 0x8000_0000) as u32 }).is_nan_spec() <==> a > 0x7f80_0000,
        (Scalar { bits: a }).le_spec(Scalar { bits: b }) <==> a <= b <= 0x7f80_0000,
        (Scalar { bits: a }).same_value_spec(Scalar { bits: b }) <==> a == b && a <= 0x7f80_0000,
{
    if a < b {
        lemma_magnitude_monotone(a as nat, b as nat);
    }
    if b < a {
        lemma_magnitude_monotone(b as nat, a as nat);
    }
}

/// A power of two of pixels between one and `2^127` has the pattern with that exponent
/// and no fraction.
pub proof fn law_powers_of_two(exponent: nat)
    requires
        exponent <= 127,
    ensures
        (Scalar { bits: ((exponent + 127) * 0x80_0000) as u32 }).units() == pow2(exponent)
            * pixel_units(),
{
    let bits = ((exponent + 127) * 0x80_0000) as u32;
    lemma_normal_units(bits as nat, exponent + 127, 0x80_0000);
    vstd::arithmetic::power2::lemma2_to64();
    lemma_pow2_adds(23, exponent + 126);
    lemma_pow2_adds(exponent, 149);
}

} // verus!
