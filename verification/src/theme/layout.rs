//! Layout-wide measurements the components share.

use vstd::prelude::*;

verus! {

/// Shared layout measurements, in logical pixels.
#[derive(Clone, Copy, Debug, PartialEq, Eq, Structural)]
pub struct LayoutResources {
    pub content_max: i64,
    pub content_padding: i64,
    pub bumper_max: i64,
}

impl Default for LayoutResources {
    fn default() -> (r: Self)
        ensures
            r == (LayoutResources { content_max: 375int as i64, content_padding: 24int as i64, bumper_max: 375int as i64 }),
    {
        LayoutResources { content_max: 375, content_padding: 24, bumper_max: 375 }
    }
}

} // verus!
