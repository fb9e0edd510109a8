use vstd::prelude::*;

verus! {

/// An 8-bit-per-channel RGB triple. Plain value type; no alpha channel.
#[derive(Clone, Copy, PartialEq, Eq, Structural, Debug)]
pub struct Colour {
    pub r: u8,
    pub g: u8,
    pub b: u8,
}

/// The per-channel average of two channel values, rounded toward zero.
pub open spec fn avg_channel(a: u8, b: u8) -> u8 {
    ((a + b) / 2) as u8
}

/// The 50/50 per-channel blend of two colours.
pub open spec fn blend_spec(a: Colour, b: Colour) -> Colour {
    Colour { r: avg_channel(a.r, b.r), g: avg_channel(a.g, b.g), b: avg_channel(a.b, b.b) }
}

impl Colour {
    pub fn black() -> (r: Colour)
        ensures
            r == (Colour { r: 0u8, g: 0u8, b: 0u8 }),
    {
        Colour { r: 0, g: 0, b: 0 }
    }

    pub fn white() -> (r: Colour)
        ensures
            r == (Colour { r: 0xFFu8, g: 0xFFu8, b: 0xFFu8 }),
    {
        Colour { r: 0xFF, g: 0xFF, b: 0xFF }
    }

    /// Unweighted per-channel average of `self` and `other`.
    pub fn blend(&self, other: &Colour) -> (r: Colour)
        ensures
            r == blend_spec(*self, *other),
    {
        Colour {
            r: ((self.r as u16 + other.r as u16) / 2) as u8,
            g: ((self.g as u16 + other.g as u16) / 2) as u8,
            b: ((self.b as u16 + other.b as u16) / 2) as u8,
        }
    }
}

/// Blending is symmetric: the order of the two colours does not matter.
pub proof fn lemma_blend_symmetric(a: Colour, b: Colour)
    ensures
        blend_spec(a, b) == blend_spec(b, a),
{
}

/// Blending a colour with itself gives that colour back unchanged.
pub proof fn lemma_blend_idempotent(c: Colour)
    ensures
        blend_spec(c, c) == c,
{
}

} // verus!
