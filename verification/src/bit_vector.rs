//! Traits for working with bit vectors.

use vstd::prelude::*;
use vstd::arithmetic::div_mod::{lemma_fundamental_div_mod, lemma_mod_bound};
use vstd::arithmetic::mul::{lemma_mul_inequality, lemma_mul_is_commutative};
use crate::block::BlockType;
use crate::convert::u64_to_usize;
use crate::counting::{count_ones, is_nth_one, lemma_rank0_plus_rank, rank0_of, rank_of};
use crate::error::OutOfBounds;

pub mod scan;
pub mod slice;

verus! {

/// The number of bits stored in a sequence of blocks.
pub open spec fn bit_count<Block: BlockType>(blocks: Seq<Block>) -> nat {
    blocks.len() * Block::spec_nbits()
}

/// The bit at `position` of a sequence of blocks: the block is found by
/// division by the block width, the offset inside it by the remainder.
pub open spec fn bit_at<Block: BlockType>(blocks: Seq<Block>, position: int) -> bool {
    blocks[position / (Block::spec_nbits() as int)].bits()[position % (Block::spec_nbits() as int)]
}

/// All the bits of a sequence of blocks, in position order.
pub open spec fn bits_of<Block: BlockType>(blocks: Seq<Block>) -> Seq<bool> {
    Seq::new(bit_count(blocks), |position: int| bit_at(blocks, position))
}

/// `after` is `before` with the bit at `position` replaced by `value`: the block
/// that holds the position has that one bit replaced, and every other block is
/// the same.
pub open spec fn bit_replaced<Block: BlockType>(
    before: Seq<Block>,
    after: Seq<Block>,
    position: int,
    value: bool,
) -> bool {
    let width = Block::spec_nbits() as int;
    &&& after.len() == before.len()
    &&& after[position / width].bits() == before[position / width].bits().update(
        position % width,
        value,
    )
    &&& forall|i: int| 0 <= i < before.len() && i != position / width ==> after[i] == before[i]
}

/// A position below `len * width` falls in a block below `len`, at an offset
/// below `width`.
pub proof fn lemma_position_split(len: int, width: int, position: int)
    requires
        0 < width,
        0 <= position < len * width,
    ensures
        0 <= position / width < len,
        0 <= position % width < width,
        position == (position / width) * width + position % width,
{
    lemma_fundamental_div_mod(position, width);
    lemma_mod_bound(position, width);
    lemma_mul_is_commutative(width, position / width);
    if position / width >= len {
        lemma_mul_inequality(len, position / width, width);
    }
    if position / width < 0 {
        lemma_mul_inequality(position / width, -1, width);
    }
}

/// A position lies below `len * width` exactly when its block index lies
/// below `len`.
pub proof fn lemma_position_in_range(len: int, width: int, position: int)
    requires
        0 < width,
        0 <= len,
        0 <= position,
    ensures
        position < len * width <==> position / width < len,
{
    lemma_fundamental_div_mod(position, width);
    lemma_mod_bound(position, width);
    lemma_mul_is_commutative(width, position / width);
    if position / width < len {
        lemma_mul_inequality(position / width + 1, len, width);
        assert((position / width + 1) * width == (position / width) * width + width)
            by (nonlinear_arith);
    } else {
        lemma_mul_inequality(len, position / width, width);
    }
}

/// Replacing one bit block-wise replaces exactly that bit in the sequence of
/// all bits: the written position reads back the written value, and every
/// other position keeps its bit.
pub proof fn lemma_bit_replaced<Block: BlockType>(
    before: Seq<Block>,
    after: Seq<Block>,
    position: int,
    value: bool,
)
    requires
        0 <= position < bit_count(before),
        bit_replaced(before, after, position, value),
    ensures
        bit_count(after) == bit_count(before),
        bit_at(after, position) == value,
        forall|other: int|
            0 <= other < bit_count(before) && other != position ==> bit_at(after, other) == bit_at(
                before,
                other,
            ),
        bits_of(after) == bits_of(before).update(position, value),
{
    Block::lemma_nbits_bounds();
    let width = Block::spec_nbits() as int;
    let len = before.len() as int;
    lemma_position_split(len, width, position);
    before[position / width].lemma_bits_len();
    assert forall|other: int| 0 <= other < bit_count(before) && other != position implies bit_at(
        after,
        other,
    ) == bit_at(before, other) by {
        lemma_position_split(len, width, other);
    }
    assert(bits_of(after) =~= bits_of(before).update(position, value));
}

/// Splits a bit position into the index of the block that holds it and
/// the offset of the bit inside that block.
pub(crate) fn split_position(position: u64, block_bits: usize) -> (r: (usize, usize))
    requires
        0 < block_bits,
        position / (block_bits as u64) <= usize::MAX,
    ensures
        r.0 == position as int / block_bits as int,
        r.1 == position as int % block_bits as int,
{
    let block_bits: u64 = block_bits as u64;
    let block_index: usize = u64_to_usize(position / block_bits).unwrap();
    let bit_offset: usize = (position % block_bits) as usize;
    (block_index, bit_offset)
}

/// Whether `position` is below the number of bits in `blocks` blocks of
/// `block_bits` bits each. The test works on block indices, so no length is too
/// large for it.
pub(crate) fn position_below(position: u64, blocks: usize, block_bits: usize) -> (r: bool)
    requires
        0 < block_bits,
    ensures
        r == (position < blocks * block_bits),
{
    proof {
        lemma_position_in_range(blocks as int, block_bits as int, position as int);
    }
    position / (block_bits as u64) < blocks as u64
}

/// Whether the first `end` positions all lie inside `blocks` blocks of
/// `block_bits` bits each.
pub(crate) fn prefix_within(end: u64, blocks: usize, block_bits: usize) -> (r: bool)
    requires
        0 < block_bits,
    ensures
        r == (end <= blocks * block_bits),
{
    end == 0 || position_below(end - 1, blocks, block_bits)
}

/// Interface for read-only bit vector operations.
///
/// The model of a bit vector is the sequence of its blocks, `blocks()`. Its bits
/// are `bits_of(self.blocks())`: block after block, each block's bits in offset
/// order.
pub trait BitVector {
    /// The type of the blocks that store the bits.
    type Block: BlockType;

    /// The blocks of this bit vector, in order.
    spec fn blocks(&self) -> Seq<Self::Block>;

    /// The number of blocks fits in a `usize`.
    proof fn lemma_block_len_fits(&self)
        ensures
            self.blocks().len() <= usize::MAX,
    ;

    /// The length of the bit vector in blocks.
    fn block_len(&self) -> (n: usize)
        ensures
            n == self.blocks().len(),
    ;

    /// The length of the bit vector in bits: the number of blocks times the
    /// width of a block. The length must fit in a `u64`.
    ///
    /// An implementation may compute the length in another way, but not to
    /// another value.
    fn bit_len(&self) -> (n: u64)
        requires
            bit_count(self.blocks()) <= u64::MAX,
        ensures
            n == bit_count(self.blocks()),
            n == self.blocks().len() * Self::Block::spec_nbits(),
    {
        let blocks: usize = self.block_len();
        let width: usize = Self::Block::nbits();
        blocks as u64 * width as u64
    }

    /// Gets the value of the block at `position`.
    fn get_block(&self, position: usize) -> (b: Self::Block)
        requires
            position < self.blocks().len(),
        ensures
            b == self.blocks()[position as int],
    ;

    /// Gets the bit at `position`.
    fn get_bit(&self, position: u64) -> (b: bool)
        requires
            position < bit_count(self.blocks()),
        ensures
            b == bit_at(self.blocks(), position as int),
            b == bits_of(self.blocks())[position as int],
    {
        let block_bits: usize = Self::Block::nbits();
        proof {
            Self::Block::lemma_nbits_bounds();
            self.lemma_block_len_fits();
            lemma_position_split(
                self.blocks().len() as int,
                block_bits as int,
                position as int,
            );
        }
        let (block_index, bit_offset) = split_position(position, block_bits);
        self.get_block(block_index).get_bit(bit_offset)
    }

    /// Gets the bit at `position`, or reports that `position` is not below the
    /// length in bits.
    fn try_get_bit(&self, position: u64) -> (r: Result<bool, OutOfBounds>)
        ensures
            position < bit_count(self.blocks()) ==> r == Ok::<bool, OutOfBounds>(
                bit_at(self.blocks(), position as int),
            ),
            position >= bit_count(self.blocks()) ==> r == Err::<bool, OutOfBounds>(OutOfBounds),
    {
        proof {
            Self::Block::lemma_nbits_bounds();
        }
        if position_below(position, self.block_len(), Self::Block::nbits()) {
            Ok(self.get_bit(position))
        } else {
            Err(OutOfBounds)
        }
    }
}

/// Interface for mutable bit vector operations.
pub trait BitVectorMut: BitVector {
    /// Sets the block at `position` to `value`.
    fn set_block(&mut self, position: usize, value: Self::Block)
        requires
            position < old(self).blocks().len(),
        ensures
            final(self).blocks() == old(self).blocks().update(position as int, value),
    ;

    /// Sets the bit at `position` to `value`: the block that holds the position
    /// is read, the bit is replaced in it, and the new block is written back.
    fn set_bit(&mut self, position: u64, value: bool)
        requires
            position < bit_count(old(self).blocks()),
        ensures
            bit_replaced(old(self).blocks(), final(self).blocks(), position as int, value),
            bits_of(final(self).blocks()) == bits_of(old(self).blocks()).update(
                position as int,
                value,
            ),
    {
        let block_bits: usize = Self::Block::nbits();
        proof {
            Self::Block::lemma_nbits_bounds();
            self.lemma_block_len_fits();
            lemma_position_split(
                self.blocks().len() as int,
                block_bits as int,
                position as int,
            );
        }
        let (block_index, bit_offset) = split_position(position, block_bits);
        let old_block = self.get_block(block_index);
        let new_block = old_block.set_bit(bit_offset, value);
        self.set_block(block_index, new_block);
        proof {
            lemma_bit_replaced(old(self).blocks(), self.blocks(), position as int, value);
        }
    }

    /// Sets the bit at `position` to `value`, or reports that `position` is not
    /// below the length in bits and changes nothing.
    fn try_set_bit(&mut self, position: u64, value: bool) -> (r: Result<(), OutOfBounds>)
        ensures
            r is Ok <==> position < bit_count(old(self).blocks()),
            r is Ok ==> bit_replaced(
                old(self).blocks(),
                final(self).blocks(),
                position as int,
                value,
            ) && bits_of(final(self).blocks()) == bits_of(old(self).blocks()).update(
                position as int,
                value,
            ),
            r is Err ==> final(self).blocks() == old(self).blocks(),
    {
        proof {
            Self::Block::lemma_nbits_bounds();
        }
        if position_below(position, self.block_len(), Self::Block::nbits()) {
            self.set_bit(position, value);
            Ok(())
        } else {
            Err(OutOfBounds)
        }
    }
}

/// A slice of blocks is a bit vector: its blocks are its elements.
impl<Block: BlockType> BitVector for [Block] {
    type Block = Block;

    open spec fn blocks(&self) -> Seq<Block> {
        self@
    }

    proof fn lemma_block_len_fits(&self) {
        assert(vstd::slice::spec_slice_len(self) == self@.len());
    }

    fn block_len(&self) -> (n: usize) {
        self.len()
    }

    fn get_block(&self, position: usize) -> (b: Block) {
        self[position]
    }
}

/// A mutable slice of blocks is a mutable bit vector.
impl<Block: BlockType> BitVectorMut for [Block] {
    fn set_block(&mut self, position: usize, value: Block) {
        self[position] = value;
    }
}

/// A vector of blocks is a bit vector: its blocks are its elements.
impl<Block: BlockType> BitVector for Vec<Block> {
    type Block = Block;

    open spec fn blocks(&self) -> Seq<Block> {
        self@
    }

    proof fn lemma_block_len_fits(&self) {
        assert(self.len() == self@.len());
    }

    fn block_len(&self) -> (n: usize) {
        self.len()
    }

    fn get_block(&self, position: usize) -> (b: Block) {
        self[position]
    }
}

/// A vector of blocks is a mutable bit vector.
impl<Block: BlockType> BitVectorMut for Vec<Block> {
    fn set_block(&mut self, position: usize, value: Block) {
        self[position] = value;
    }
}

/// Interface for types that support rank queries.
///
/// The model is the sequence of bits that the structure answers for,
/// `rank_bits()`; a query is defined at every position below its length.
pub trait Rank {
    /// The bits that rank queries count over.
    spec fn rank_bits(&self) -> Seq<bool>;

    /// Returns the rank at a given position.
    ///
    /// This is the number of 1s up to and including that position. The
    /// position must leave room for that count in a `u64`.
    fn rank(&self, position: u64) -> (r: u64)
        requires
            position < self.rank_bits().len(),
            position < u64::MAX,
        ensures
            r == rank_of(self.rank_bits(), position as int),
    ;

    /// Returns the rank of 0s at a given position.
    ///
    /// This is the number of 0s up to and including that position.
    fn rank0(&self, position: u64) -> (r: u64)
        requires
            position < self.rank_bits().len(),
            position < u64::MAX,
        ensures
            r == rank0_of(self.rank_bits(), position as int),
            r == position + 1 - rank_of(self.rank_bits(), position as int),
    {
        proof {
            lemma_rank0_plus_rank(self.rank_bits(), position as int);
        }
        position + 1 - self.rank(position)
    }
}

/// Interface for types that support select queries.
///
/// The model is the sequence of bits that the structure answers for,
/// `select_bits()`. Set bits are numbered from zero: `select(0)` is the
/// position of the first set bit.
pub trait Select {
    /// The bits that select queries search.
    spec fn select_bits(&self) -> Seq<bool>;

    /// Returns the position of the `index`th 1 bit, counting from zero.
    ///
    /// `index` must be below the number of set bits, and every position must
    /// fit in a `u64`.
    fn select(&self, index: u64) -> (position: u64)
        requires
            self.select_bits().len() <= u64::MAX,
            index < count_ones(self.select_bits(), self.select_bits().len() as int),
        ensures
            is_nth_one(self.select_bits(), index as int, position as int),
    ;
}

} // verus!
