use vstd::prelude::*;

verus! {

/// A color in the HSL color space: hue, saturation and lightness, each kept
/// at the resolution the store persists (hue in 0..=65535, saturation and
/// lightness in 0..=255).
#[derive(Clone, Copy, PartialEq, Eq, Structural, Debug, Hash)]
pub struct HslColor {
    pub hue: u16,
    pub saturation: u8,
    pub lightness: u8,
}

impl HslColor {
    /// The single-integer encoding of a color: hue in the high 16 bits,
    /// saturation in the middle 8, lightness in the low 8.
    pub open spec fn spec_packed(self) -> int {
        self.hue * 0x1_0000 + self.saturation * 0x100 + self.lightness
    }

    /// Packs the three components into one integer, the form in which a
    /// color is stored in a single database column.
    pub fn to_packed(&self) -> (r: u32)
        ensures
            r == self.spec_packed(),
    {
        (self.hue as u32) * 0x1_0000 + (self.saturation as u32) * 0x100 + (self.lightness as u32)
    }

    /// Recovers the three components from the packed encoding.
    pub fn from_packed(num: u32) -> (c: HslColor)
        ensures
            c.spec_packed() == num,
    {
        let hue: u32 = num / 0x1_0000;
        let after_hue: u32 = num % 0x1_0000;
        let saturation: u32 = after_hue / 0x100;
        let lightness: u32 = after_hue % 0x100;
        HslColor {
            hue: hue as u16,
            saturation: saturation as u8,
            lightness: lightness as u8,
        }
    }
}

/// The packed encoding is injective: two colors with the same encoding are
/// the same color, so storing a color as one integer loses nothing.
pub proof fn lemma_packed_injective(a: HslColor, b: HslColor)
    requires
        a.spec_packed() == b.spec_packed(),
    ensures
        a == b,
{
}

} // verus!
