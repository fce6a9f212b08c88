//! The averaged colour and its brightness classification.

use vstd::prelude::*;

verus! {

/// Weight of the red channel in the BT.709 luma, in ten-thousandths.
pub const RED_WEIGHT: u64 = 2126;

/// Weight of the green channel in the BT.709 luma, in ten-thousandths.
pub const GREEN_WEIGHT: u64 = 7152;

/// Weight of the blue channel in the BT.709 luma, in ten-thousandths.
pub const BLUE_WEIGHT: u64 = 722;

/// Half of the largest weighted luma of an 8-bit colour: `255 * 10000 / 2`.
/// A colour is light when its weighted luma is strictly above this.
pub const LIGHT_THRESHOLD: u64 = 1_275_000;

/// The mean red, green and blue of an image, in that order.
///
/// Each channel is the sum of that channel over all pixels divided by the
/// pixel count, rounded towards zero.
#[derive(Debug, Clone, Copy, PartialEq, Eq, Structural)]
pub struct AverageColor(pub u64, pub u64, pub u64);

impl AverageColor {
    /// The BT.709 luma of the colour scaled by 10000, so that the weights
    /// 0.2126, 0.7152 and 0.0722 become integers.
    pub open spec fn weighted_luma(self) -> int {
        RED_WEIGHT * self.0 + GREEN_WEIGHT * self.1 + BLUE_WEIGHT * self.2
    }

    /// Whether the relative luminance `weighted_luma / (255 * 10000)` is
    /// strictly above one half.
    pub open spec fn spec_is_light(self) -> bool {
        self.weighted_luma() > LIGHT_THRESHOLD
    }

    /// Whether every channel fits in eight bits, as it does for every colour
    /// averaged from 8-bit pixels.
    pub open spec fn is_8bit(self) -> bool {
        self.0 <= 255 && self.1 <= 255 && self.2 <= 255
    }

    /// Detects whether the colour is light (`true`) or dark (`false`).
    ///
    /// The luma is computed exactly, in integers, so a colour that sits on
    /// the threshold is dark.
    pub fn is_light(&self) -> (light: bool)
        ensures
            light == self.spec_is_light(),
    {
        let red: u128 = self.0 as u128;
        let green: u128 = self.1 as u128;
        let blue: u128 = self.2 as u128;
        assert(RED_WEIGHT == 2126 && GREEN_WEIGHT == 7152 && BLUE_WEIGHT == 722);
        let luma: u128 = 2126 * red + 7152 * green + 722 * blue;
        luma > LIGHT_THRESHOLD as u128
    }
}

/// Lightness is monotonic in luma: a colour whose luma is strictly greater
/// than that of a light colour is light as well.
pub proof fn lemma_is_light_monotonic(brighter: AverageColor, darker: AverageColor)
    requires
        brighter.weighted_luma() > darker.weighted_luma(),
        darker.spec_is_light(),
    ensures
        brighter.spec_is_light(),
{
}

} // verus!
