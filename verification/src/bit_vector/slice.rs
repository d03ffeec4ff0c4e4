//! Borrowed windows over a bit vector.

use vstd::prelude::*;
use std::ops::Range;
use crate::bit_vector::{
    bit_at,
    bit_count,
    bit_replaced,
    bits_of,
    prefix_within,
    BitVector,
    BitVectorMut,
};
use crate::block::BlockType;
use crate::error::OutOfBounds;

verus! {

/// The bit at `position` of the window `start .. end` of a bit vector is the
/// bit of the bit vector at `start + position`.
pub proof fn lemma_slice_bit<Block: BlockType>(
    blocks: Seq<Block>,
    start: int,
    end: int,
    position: int,
)
    requires
        0 <= start <= end <= bit_count(blocks),
        0 <= position < end - start,
    ensures
        bits_of(blocks).subrange(start, end).len() == end - start,
        bits_of(blocks).subrange(start, end)[position] == bit_at(blocks, start + position),
{
}

/// A borrowed slice of a bit vector.
///
/// The slice stands for the bits of its base at positions
/// `start() .. start() + spec_bit_len()`; nothing is copied.
#[derive(Debug)]
pub struct BitSlice<'a, Base: BitVector> {
    data: &'a Base,
    start: u64,
    len: u64,
}

impl<'a, Base: BitVector> BitSlice<'a, Base> {
    /// The slice lies inside its base, and its end is a position.
    #[verifier::type_invariant]
    spec fn in_bounds(self) -> bool {
        &&& self.start + self.len <= u64::MAX
        &&& self.start + self.len <= bit_count(self.data.blocks())
    }

    /// The bit vector that the slice looks into.
    pub closed spec fn base(&self) -> Base {
        *self.data
    }

    /// The position in the base of the first bit of the slice.
    pub closed spec fn start(&self) -> nat {
        self.start as nat
    }

    /// The number of bits in the slice.
    pub closed spec fn spec_bit_len(&self) -> nat {
        self.len as nat
    }

    /// Slices `base` to the bits at positions `range.start .. range.end`.
    ///
    /// The range must be in order and end within the base; otherwise no slice
    /// is made.
    pub fn new(base: &'a Base, range: Range<u64>) -> (r: Result<Self, OutOfBounds>)
        ensures
            r is Ok <==> range.start <= range.end <= bit_count(base.blocks()),
            r matches Ok(s) ==> s.base() == *base && s.start() == range.start && s.spec_bit_len()
                == range.end - range.start,
            r matches Ok(s) ==> s@ == bits_of(base.blocks()).subrange(
                range.start as int,
                range.end as int,
            ),
    {
        proof {
            Base::Block::lemma_nbits_bounds();
        }
        if range.start <= range.end && prefix_within(
            range.end,
            base.block_len(),
            Base::Block::nbits(),
        ) {
            Ok(BitSlice { data: base, start: range.start, len: range.end - range.start })
        } else {
            Err(OutOfBounds)
        }
    }

    /// The length of the slice in bits. The slice ends within its base.
    pub fn bit_len(&self) -> (n: u64)
        ensures
            n == self.spec_bit_len(),
            self.start() + n <= bit_count(self.base().blocks()),
    {
        proof {
            use_type_invariant(self);
        }
        self.len
    }

    /// Gets the bit at `position` of the slice, which is the bit of the base at
    /// `start() + position`.
    pub fn get_bit(&self, position: u64) -> (b: bool)
        requires
            position < self.spec_bit_len(),
        ensures
            b == bit_at(self.base().blocks(), self.start() + position),
            b == self@[position as int],
    {
        proof {
            use_type_invariant(self);
        }
        self.data.get_bit(self.start + position)
    }

    /// Gets the bit at `position` of the slice, or reports that `position` is
    /// not below the length of the slice.
    pub fn try_get_bit(&self, position: u64) -> (r: Result<bool, OutOfBounds>)
        ensures
            position < self.spec_bit_len() ==> r == Ok::<bool, OutOfBounds>(
                bit_at(self.base().blocks(), self.start() + position),
            ),
            position >= self.spec_bit_len() ==> r == Err::<bool, OutOfBounds>(OutOfBounds),
    {
        if position < self.len {
            Ok(self.get_bit(position))
        } else {
            Err(OutOfBounds)
        }
    }
}

impl<'a, Base: BitVector> Clone for BitSlice<'a, Base> {
    /// Another view of the same bits of the same base.
    fn clone(&self) -> (r: Self)
        ensures
            r == *self,
    {
        *self
    }
}

impl<'a, Base: BitVector> Copy for BitSlice<'a, Base> {

}

impl<'a, Base: BitVector> View for BitSlice<'a, Base> {
    type V = Seq<bool>;

    /// The bits of the slice, in position order.
    open spec fn view(&self) -> Seq<bool> {
        bits_of(self.base().blocks()).subrange(
            self.start() as int,
            (self.start() + self.spec_bit_len()) as int,
        )
    }
}

/// A borrowed, mutable slice of a bit vector.
///
/// The slice stands for the bits of its base at positions
/// `start .. start + len`, and writes through to the base. The fields are
/// public so that contracts can speak of the base that the slice has
/// borrowed, and of the value the base is left with when the slice is gone;
/// `wf()` is what every method asks for and keeps.
#[derive(Debug)]
pub struct BitSliceMut<'a, Base: BitVectorMut> {
    /// The bit vector that the slice looks into.
    pub data: &'a mut Base,
    /// The position in the base of the first bit of the slice.
    pub start: u64,
    /// The number of bits in the slice.
    pub len: u64,
}

impl<'a, Base: BitVectorMut> BitSliceMut<'a, Base> {
    /// The blocks of the base, as the slice sees them now.
    pub open spec fn base_blocks(&self) -> Seq<Base::Block> {
        self.data.blocks()
    }

    /// The slice lies inside its base.
    pub open spec fn wf(&self) -> bool {
        &&& self.start + self.len <= u64::MAX
        &&& self.start + self.len <= bit_count(self.base_blocks())
    }

    /// Slices `base` to the bits at positions `range.start .. range.end`.
    ///
    /// The range must be in order and end within the base; otherwise no slice
    /// is made and the base is given back as it was.
    pub fn new(base: &'a mut Base, range: Range<u64>) -> (r: Result<Self, OutOfBounds>)
        ensures
            r is Ok <==> range.start <= range.end <= bit_count(old(base).blocks()),
            r matches Ok(s) ==> s.wf() && *s.data == *old(base) && s.start == range.start && s.len
                == range.end - range.start,
            r matches Ok(s) ==> *final(base) == *final(s.data),
            r is Err ==> *final(base) == *old(base),
    {
        proof {
            Base::Block::lemma_nbits_bounds();
        }
        if range.start <= range.end && prefix_within(
            range.end,
            base.block_len(),
            Base::Block::nbits(),
        ) {
            Ok(BitSliceMut { data: base, start: range.start, len: range.end - range.start })
        } else {
            Err(OutOfBounds)
        }
    }

    /// The length of the slice in bits.
    pub fn bit_len(&self) -> (n: u64)
        ensures
            n == self.len,
    {
        self.len
    }

    /// Gets the bit at `position` of the slice, which is the bit of the base at
    /// `start + position`.
    pub fn get_bit(&self, position: u64) -> (b: bool)
        requires
            self.wf(),
            position < self.len,
        ensures
            b == bit_at(self.base_blocks(), self.start + position),
            b == self@[position as int],
    {
        self.data.get_bit(self.start + position)
    }

    /// Gets the bit at `position` of the slice, or reports that `position` is
    /// not below the length of the slice.
    pub fn try_get_bit(&self, position: u64) -> (r: Result<bool, OutOfBounds>)
        requires
            self.wf(),
        ensures
            position < self.len ==> r == Ok::<bool, OutOfBounds>(
                bit_at(self.base_blocks(), self.start + position),
            ),
            position >= self.len ==> r == Err::<bool, OutOfBounds>(OutOfBounds),
    {
        if position < self.len {
            Ok(self.get_bit(position))
        } else {
            Err(OutOfBounds)
        }
    }

    /// Sets the bit at `position` of the slice, which is the bit of the base at
    /// `start + position`, to `value`.
    pub fn set_bit(&mut self, position: u64, value: bool)
        requires
            old(self).wf(),
            position < old(self).len,
        ensures
            final(self).wf(),
            final(self).start == old(self).start,
            final(self).len == old(self).len,
            *final(final(self).data) == *final(old(self).data),
            bit_replaced(
                old(self).base_blocks(),
                final(self).base_blocks(),
                old(self).start + position,
                value,
            ),
            final(self)@ == old(self)@.update(position as int, value),
    {
        let start = self.start;
        self.data.set_bit(start + position, value);
    }

    /// Sets the bit at `position` of the slice to `value`, or reports that
    /// `position` is not below the length of the slice and changes nothing.
    pub fn try_set_bit(&mut self, position: u64, value: bool) -> (r: Result<(), OutOfBounds>)
        requires
            old(self).wf(),
        ensures
            r is Ok <==> position < old(self).len,
            final(self).wf(),
            final(self).start == old(self).start,
            final(self).len == old(self).len,
            *final(final(self).data) == *final(old(self).data),
            r is Ok ==> bit_replaced(
                old(self).base_blocks(),
                final(self).base_blocks(),
                old(self).start + position,
                value,
            ) && final(self)@ == old(self)@.update(position as int, value),
            r is Err ==> *final(self).data == *old(self).data,
    {
        if position < self.len {
            self.set_bit(position, value);
            Ok(())
        } else {
            Err(OutOfBounds)
        }
    }
}

impl<'a, Base: BitVectorMut> View for BitSliceMut<'a, Base> {
    type V = Seq<bool>;

    /// The bits of the slice, in position order.
    open spec fn view(&self) -> Seq<bool> {
        bits_of(self.base_blocks()).subrange(self.start as int, self.start + self.len)
    }
}

} // verus!
