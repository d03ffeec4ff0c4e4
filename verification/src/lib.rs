//! Bit-addressable storage over fixed-width blocks, with slice views and the
//! contracts of rank and select queries.

pub mod bit_vector;
pub mod block;
mod convert;
pub mod counting;
pub mod error;

pub use crate::bit_vector::slice::{BitSlice, BitSliceMut};
pub use crate::bit_vector::{BitVector, BitVectorMut, Rank, Select};
pub use crate::block::BlockType;
pub use crate::error::OutOfBounds;
