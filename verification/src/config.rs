//! Bar configuration: the window band's logical metrics, written for
//! one expected display width and rescaled exactly for the width a
//! display really has.

use vstd::prelude::*;

use crate::module::Padding;

verus! {

/// A logical dimension rescaled for a display `width` units wide when
/// the configuration was written for `expected` units, rounded down.
pub open spec fn spec_scaled_dim(v: u32, width: u32, expected: u32) -> int {
    v * width / (expected as int)
}

/// The window band's metrics, all in logical pixels for a display
/// `expected_width` units wide.
#[derive(Clone, Copy, Debug, Default, PartialEq, Eq, Structural)]
pub struct WindowConfig {
    pub height: u32,
    /// The display width all other settings assume; a display twice
    /// as wide doubles them.
    pub expected_width: u32,
    pub margin_top: u32,
    pub margin_left: u32,
    pub margin_right: u32,
    pub margin_bottom: u32,
}

/// Exact machine computation of `spec_scaled_dim`.
fn scaled_dim(v: u32, width: u32, expected: u32) -> (r: u32)
    requires
        expected >= 1,
        spec_scaled_dim(v, width, expected) <= u32::MAX,
    ensures
        r == spec_scaled_dim(v, width, expected),
{
    proof {
        assert(v * width <= 0xffff_ffff * 0xffff_ffff) by (nonlinear_arith)
            requires
                0 <= v <= 0xffff_ffff,
                0 <= width <= 0xffff_ffff,
        ;
    }
    (v as u64 * width as u64 / expected as u64) as u32
}

impl WindowConfig {
    /// The metrics as they apply to a display `width` units wide:
    /// every dimension is scaled by `width / expected_width`, rounded
    /// down. The reference width itself is kept.
    pub fn scaled_for_width(self, width: u32) -> (r: WindowConfig)
        requires
            self.expected_width >= 1,
            spec_scaled_dim(self.height, width, self.expected_width) <= u32::MAX,
            spec_scaled_dim(self.margin_top, width, self.expected_width) <= u32::MAX,
            spec_scaled_dim(self.margin_left, width, self.expected_width) <= u32::MAX,
            spec_scaled_dim(self.margin_right, width, self.expected_width) <= u32::MAX,
            spec_scaled_dim(self.margin_bottom, width, self.expected_width) <= u32::MAX,
        ensures
            r.height == spec_scaled_dim(self.height, width, self.expected_width),
            r.margin_top == spec_scaled_dim(self.margin_top, width, self.expected_width),
            r.margin_left == spec_scaled_dim(self.margin_left, width, self.expected_width),
            r.margin_right == spec_scaled_dim(self.margin_right, width, self.expected_width),
            r.margin_bottom == spec_scaled_dim(self.margin_bottom, width, self.expected_width),
            r.expected_width == self.expected_width,
    {
        WindowConfig {
            height: scaled_dim(self.height, width, self.expected_width),
            expected_width: self.expected_width,
            margin_top: scaled_dim(self.margin_top, width, self.expected_width),
            margin_left: scaled_dim(self.margin_left, width, self.expected_width),
            margin_right: scaled_dim(self.margin_right, width, self.expected_width),
            margin_bottom: scaled_dim(self.margin_bottom, width, self.expected_width),
        }
    }
}

impl Padding {
    /// The padding as it applies to a display `width` units wide when
    /// written for `expected` units.
    pub fn scaled_for_width(self, width: u32, expected: u32) -> (r: Padding)
        requires
            expected >= 1,
            spec_scaled_dim(self.left, width, expected) <= u32::MAX,
            spec_scaled_dim(self.right, width, expected) <= u32::MAX,
            spec_scaled_dim(self.top, width, expected) <= u32::MAX,
            spec_scaled_dim(self.bottom, width, expected) <= u32::MAX,
        ensures
            r.left == spec_scaled_dim(self.left, width, expected),
            r.right == spec_scaled_dim(self.right, width, expected),
            r.top == spec_scaled_dim(self.top, width, expected),
            r.bottom == spec_scaled_dim(self.bottom, width, expected),
    {
        Padding {
            left: scaled_dim(self.left, width, expected),
            right: scaled_dim(self.right, width, expected),
            top: scaled_dim(self.top, width, expected),
            bottom: scaled_dim(self.bottom, width, expected),
        }
    }
}

} // verus!
