//! Displays as the embedded application sees them.
use crate::geometry::{Bounds, Point, Size};
use crate::scalar::Scalar;
use vstd::arithmetic::power::pow;
use vstd::prelude::*;

verus! {

/// Pattern of the default width, 1920 pixels.
pub const DEFAULT_WIDTH_BITS: u32 = 0x44f0_0000;

/// Pattern of the default height, 1080 pixels.
pub const DEFAULT_HEIGHT_BITS: u32 = 0x4487_0000;

/// A display with its position and size in logical pixels.
#[derive(Clone, Copy, Debug, PartialEq, Eq, Structural)]
pub struct BevyDisplay {
    /// Identity of the display.
    pub id: u64,
    /// Position and size.
    pub bounds: Bounds,
}

/// Position and size of a display nobody has reported yet.
pub open spec fn default_bounds() -> Bounds {
    Bounds {
        origin: Point::origin_spec(),
        size: Size {
            width: Scalar { bits: DEFAULT_WIDTH_BITS },
            height: Scalar { bits: DEFAULT_HEIGHT_BITS },
        },
    }
}

/// A byte of a number: the digit at a place in base 256.
pub open spec fn byte_at(value: nat, place: nat) -> nat
    decreases place,
{
    if place == 0 {
        value % 256
    } else {
        byte_at(value / 256, (place - 1) as nat)
    }
}

/// `uuid::Uuid::from_u128` makes a UUID whose sixteen bytes, as
/// `uuid::Uuid::into_bytes` returns them, are those of the number, the most
/// significant first.
#[verifier::external_body]
fn uuid_bytes(value: u128) -> (r: [u8; 16])
    ensures
        forall|i: int| 0 <= i < 16 ==> #[trigger] r@[i] == byte_at(value as nat, (15 - i) as nat),
{
    uuid::Uuid::from_u128(value).into_bytes()
}

impl Default for BevyDisplay {
    /// The display with the identity one, at the origin and of the default size.
    fn default() -> (r: Self)
        ensures
            r == (BevyDisplay { id: 1, bounds: default_bounds() }),
    {
        BevyDisplay::new(1)
    }
}

impl BevyDisplay {
    /// A display at the origin and of the default size.
    pub fn new(id: u64) -> (r: Self)
        ensures
            r == (BevyDisplay { id, bounds: default_bounds() }),
    {
        BevyDisplay {
            id,
            bounds: Bounds {
                origin: Point::origin(),
                size: Size {
                    width: Scalar { bits: DEFAULT_WIDTH_BITS },
                    height: Scalar { bits: DEFAULT_HEIGHT_BITS },
                },
            },
        }
    }

    /// Takes over the position and size the host reports.
    pub fn sync(&mut self, bounds: Bounds)
        ensures
            *final(self) == (BevyDisplay { bounds, ..*old(self) }),
    {
        self.bounds = bounds;
    }

    /// The bytes of the display's UUID, the most significant first: its identity
    /// as a 128-bit number.
    pub fn uuid(&self) -> (r: [u8; 16])
        ensures
            forall|i: int|
                0 <= i < 16 ==> #[trigger] r@[i] == byte_at(self.id as nat, (15 - i) as nat),
    {
        uuid_bytes(self.id as u128)
    }
}

proof fn lemma_bytes_determine(a: nat, b: nat, places: nat)
    requires
        a < pow(256, places),
        b < pow(256, places),
        forall|place: nat| place < places ==> byte_at(a, place) == #[trigger] byte_at(b, place),
    ensures
        a == b,
    decreases places,
{
    reveal(pow);
    if places > 0 {
        let fewer = (places - 1) as nat;
        let bound = pow(256, fewer);
        assert(pow(256, places) == 256 * bound);
        assert(byte_at(a, 0) == byte_at(b, 0));
        assert forall|place: nat| place < fewer implies byte_at(a / 256, place)
            == #[trigger] byte_at(b / 256, place) by {
            assert(byte_at(a, place + 1) == byte_at(b, place + 1));
        }
        assert(a / 256 < bound);
        assert(b / 256 < bound);
        lemma_bytes_determine(a / 256, b / 256, fewer);
    }
}

/// Displays with different identities have different UUIDs.
pub proof fn law_uuid_identifies_display(a: u64, b: u64)
    requires
        forall|place: nat|
            place < 16 ==> byte_at(a as nat, place) == #[trigger] byte_at(b as nat, place),
    ensures
        a == b,
{
    vstd::arithmetic::power::lemma_pow_adds(256, 8, 8);
    assert(pow(256, 8) == 0x1_0000_0000_0000_0000) by {
        reveal_with_fuel(pow, 9);
    }
    assert(pow(256, 16) >= 0x1_0000_0000_0000_0000) by (nonlinear_arith)
        requires
            pow(256, 16) == pow(256, 8) * pow(256, 8),
            pow(256, 8) == 0x1_0000_0000_0000_0000,
    ;
    lemma_bytes_determine(a as nat, b as nat, 16);
}

/// The default size is 1920 by 1080 pixels.
pub proof fn law_default_size()
    ensures
        default_bounds().size.width.units() == 1920 * crate::scalar::pixel_units(),
        default_bounds().size.height.units() == 1080 * crate::scalar::pixel_units(),
{
    vstd::arithmetic::power2::lemma2_to64();
    crate::scalar::lemma_whole_pixels(DEFAULT_WIDTH_BITS, 1920, 137);
    crate::scalar::lemma_whole_pixels(DEFAULT_HEIGHT_BITS, 1080, 137);
}

/// The bytes of a number give it back, each at its place in base 256, and a place
/// beyond them holds zero.
pub proof fn law_bytes_give_number_back(value: nat, place: nat)
    ensures
        byte_at(value, place) < 256,
        value < 256 ==> byte_at(value, 0) == value,
        byte_at(value * 256, place + 1) == byte_at(value, place),
        byte_at(value * 256, 0) == 0,
        value == (value / 256) * 256 + byte_at(value, 0),
    decreases place,
{
    if place > 0 {
        law_bytes_give_number_back(value / 256, (place - 1) as nat);
    }
    assert((value * 256) / 256 == value);
    assert((value * 256) % 256 == 0);
}

} // verus!
