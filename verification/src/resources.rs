//! Opaque handles to loaded resources. The engine core never looks inside
//! a font or an image: it stores, compares and hands back the handle the
//! asset loader minted, as a plain value.

use vstd::prelude::*;

verus! {

/// A handle to a loaded font.
#[derive(Clone, Copy, Debug, PartialEq, Eq, Structural)]
pub struct Font(pub u64);

/// A handle to a loaded image.
#[derive(Clone, Copy, Debug, PartialEq, Eq, Structural)]
pub struct Image(pub u64);

} // verus!
