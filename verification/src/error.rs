//! The error reported by checked accessors and constructors.

use vstd::prelude::*;

verus! {

/// A position, a block index or a slice range reaches past the addressable
/// length of its target.
#[derive(Clone, Copy, Debug, PartialEq, Eq, Structural)]
pub struct OutOfBounds;

} // verus!
