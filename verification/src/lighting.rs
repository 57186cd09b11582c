use crate::vector::{Scalar, Vec3, SIGN_BIT};
use vstd::prelude::*;

verus! {

/// The byte of a packed color that holds its alpha.
pub const ALPHA_MASK: u32 = 0xFF000000;

/// The byte of a packed color that holds its red.
pub const RED_MASK: u32 = 0x00FF0000;

/// The byte of a packed color that holds its green.
pub const GREEN_MASK: u32 = 0x0000FF00;

/// The byte of a packed color that holds its blue.
pub const BLUE_MASK: u32 = 0x000000FF;

/// The four channels of a packed `0xAARRGGBB` color, each at its own place
/// in the word and zero elsewhere.
#[derive(Clone, Copy, Debug, PartialEq, Eq, Structural)]
pub struct Channels {
    pub alpha: u32,
    pub red: u32,
    pub green: u32,
    pub blue: u32,
}

/// The color that the channels of `scaled` give together with the alpha of
/// `base_color`: of each scaled channel only the bits at the channel's
/// own place count.
pub open spec fn recombined(base_color: u32, scaled: Channels) -> u32 {
    (base_color & ALPHA_MASK) | (scaled.red & RED_MASK) | (scaled.green & GREEN_MASK) | (
    scaled.blue & BLUE_MASK)
}

/// How strongly a face is lit whose normal and the light direction have the
/// dot product `dot`: the negated product where that is negative, so that
/// the face looks into the light, and zero otherwise. The zero has its sign
/// bit set, as the negation of zero has.
pub open spec fn factor_of(dot: Scalar) -> Scalar {
    if dot.negative() {
        dot.opposite()
    } else {
        Scalar { bits: SIGN_BIT }
    }
}

/// The one directional light of a scene.
pub struct GlobalLight {
    direction: Vec3,
}

impl GlobalLight {
    /// The direction that the light is held in.
    pub closed spec fn held(&self) -> Vec3 {
        self.direction
    }

    /// The light that shines along `direction`, given in world coordinates.
    /// It is held with the y and z coordinates negated.
    pub fn new(direction: Vec3) -> (light: Self)
        ensures
            light.held() == Vec3(direction.0, direction.1.opposite(), direction.2.opposite()),
    {
        GlobalLight { direction: Vec3(direction.0, direction.1.negated(), direction.2.negated()) }
    }

    /// The direction that the light is held in.
    pub fn direction(&self) -> (direction: Vec3)
        ensures
            direction == self.held(),
    {
        self.direction
    }

    /// How strongly a face is lit whose normal has the dot product `dot`
    /// with the direction of the light. A face that looks away from the
    /// light, or one without a normal, gets zero.
    pub fn light_factor_of(&self, dot: Scalar) -> (factor: Scalar)
        ensures
            factor == factor_of(dot),
            !factor.negative(),
    {
        if dot.is_negative() {
            dot.negated()
        } else {
            Scalar::from_bits(SIGN_BIT)
        }
    }

    /// How strongly a face is lit: as `light_factor_of` says for the dot
    /// product of its normal with the direction of the light, and not at all
    /// where the face is degenerate and has no normal.
    pub fn light_factor_for(&self, degenerate: bool, dot: Scalar) -> (factor: Scalar)
        ensures
            factor == if degenerate {
                Scalar { bits: 0 }
            } else {
                factor_of(dot)
            },
            !factor.negative(),
    {
        if degenerate {
            Scalar::zero()
        } else {
            self.light_factor_of(dot)
        }
    }

    /// The channels of `color`, each at its own place.
    pub fn channels(color: u32) -> (channels: Channels)
        ensures
            channels == (Channels {
                alpha: color & ALPHA_MASK,
                red: color & RED_MASK,
                green: color & GREEN_MASK,
                blue: color & BLUE_MASK,
            }),
    {
        Channels {
            alpha: color & ALPHA_MASK,
            red: color & RED_MASK,
            green: color & GREEN_MASK,
            blue: color & BLUE_MASK,
        }
    }

    /// The color of a lit face: the alpha of `base_color`, and the red,
    /// green and blue that the caller scaled by the light factor. Each scaled
    /// channel is cut back to its own byte, so none runs into its neighbour.
    pub fn lit_color(&self, base_color: u32, scaled: Channels) -> (color: u32)
        ensures
            color == recombined(base_color, scaled),
    {
        let a: u32 = base_color & ALPHA_MASK;
        let lit_color = a | (scaled.red & RED_MASK) | (scaled.green & GREEN_MASK) | (scaled.blue
            & BLUE_MASK);
        return lit_color;
    }
}

/// Each channel of a recombined color is the matching channel of what went
/// in: alpha comes from the base color, and no scaled channel reaches
/// another channel's byte.
pub proof fn lemma_recombined_channels(base_color: u32, scaled: Channels)
    ensures
        recombined(base_color, scaled) & ALPHA_MASK == base_color & ALPHA_MASK,
        recombined(base_color, scaled) & RED_MASK == scaled.red & RED_MASK,
        recombined(base_color, scaled) & GREEN_MASK == scaled.green & GREEN_MASK,
        recombined(base_color, scaled) & BLUE_MASK == scaled.blue & BLUE_MASK,
{
    let o = base_color;
    let r = scaled.red;
    let g = scaled.green;
    let b = scaled.blue;
    assert(((o & 0xFF000000u32) | (r & 0x00FF0000u32) | (g & 0x0000FF00u32) | (b & 0x000000FFu32))
        & 0xFF000000u32 == o & 0xFF000000u32) by (bit_vector);
    assert(((o & 0xFF000000u32) | (r & 0x00FF0000u32) | (g & 0x0000FF00u32) | (b & 0x000000FFu32))
        & 0x00FF0000u32 == r & 0x00FF0000u32) by (bit_vector);
    assert(((o & 0xFF000000u32) | (r & 0x00FF0000u32) | (g & 0x0000FF00u32) | (b & 0x000000FFu32))
        & 0x0000FF00u32 == g & 0x0000FF00u32) by (bit_vector);
    assert(((o & 0xFF000000u32) | (r & 0x00FF0000u32) | (g & 0x0000FF00u32) | (b & 0x000000FFu32))
        & 0x000000FFu32 == b & 0x000000FFu32) by (bit_vector);
}

/// A color whose channels were left as they are comes back unchanged.
pub proof fn lemma_recombined_unscaled(color: u32)
    ensures
        recombined(
            color,
            Channels {
                alpha: color & ALPHA_MASK,
                red: color & RED_MASK,
                green: color & GREEN_MASK,
                blue: color & BLUE_MASK,
            },
        ) == color,
{
    assert(((color & 0xFF000000u32) | ((color & 0x00FF0000u32) & 0x00FF0000u32) | ((color
        & 0x0000FF00u32) & 0x0000FF00u32) | ((color & 0x000000FFu32) & 0x000000FFu32)) == color)
        by (bit_vector);
}

} // verus!
