//! Rank and select on plain block storage, answered by walking the bits.
//!
//! Nothing is precomputed: a query costs time in proportion to the position
//! it reaches. Rank is defined at the positions below the length in bits of
//! the storage, select at the indices below the number of its set bits.

use vstd::prelude::*;
use crate::bit_vector::{bit_count, bits_of, BitVector, Rank, Select};
use crate::block::BlockType;
use crate::counting::{count_ones, is_nth_one, lemma_count_ones_monotonic, rank_of};

verus! {

/// Counts the set bits of `vector` at positions `0 ..= position`.
pub fn rank_by_scan<V: BitVector + ?Sized>(vector: &V, position: u64) -> (r: u64)
    requires
        position < bit_count(vector.blocks()),
        position < u64::MAX,
    ensures
        r == rank_of(bits_of(vector.blocks()), position as int),
{
    let ghost bits = bits_of(vector.blocks());
    let mut seen: u64 = 0;
    let mut next: u64 = 0;
    while next <= position
        invariant
            next <= position + 1,
            position < bit_count(vector.blocks()),
            position < u64::MAX,
            bits == bits_of(vector.blocks()),
            seen == count_ones(bits, next as int),
            seen <= next,
        decreases position + 1 - next,
    {
        if vector.get_bit(next) {
            seen = seen + 1;
        }
        next = next + 1;
    }
    seen
}

/// Finds the position of the set bit of `vector` that has exactly `index` set
/// bits before it.
pub fn select_by_scan<V: BitVector + ?Sized>(vector: &V, index: u64) -> (position: u64)
    requires
        bit_count(vector.blocks()) <= u64::MAX,
        index < count_ones(bits_of(vector.blocks()), bit_count(vector.blocks()) as int),
    ensures
        is_nth_one(bits_of(vector.blocks()), index as int, position as int),
{
    let ghost bits = bits_of(vector.blocks());
    let ghost total = bit_count(vector.blocks()) as int;
    let mut seen: u64 = 0;
    let mut next: u64 = 0;
    loop
        invariant
            bits == bits_of(vector.blocks()),
            total == bit_count(vector.blocks()),
            total <= u64::MAX,
            index < count_ones(bits, total),
            next <= total,
            seen == count_ones(bits, next as int),
            seen <= index,
        decreases total - next,
    {
        assert(next < total);
        if vector.get_bit(next) {
            if seen == index {
                return next;
            }
            seen = seen + 1;
        }
        next = next + 1;
        proof {
            lemma_count_ones_monotonic(bits, next as int, total);
        }
    }
}

/// A slice of blocks answers rank queries over all of its bits.
impl<Block: BlockType> Rank for [Block] {
    open spec fn rank_bits(&self) -> Seq<bool> {
        bits_of(self@)
    }

    fn rank(&self, position: u64) -> (r: u64) {
        rank_by_scan(self, position)
    }
}

/// A slice of blocks answers select queries over all of its bits.
impl<Block: BlockType> Select for [Block] {
    open spec fn select_bits(&self) -> Seq<bool> {
        bits_of(self@)
    }

    fn select(&self, index: u64) -> (position: u64) {
        select_by_scan(self, index)
    }
}

/// A vector of blocks answers rank queries over all of its bits.
impl<Block: BlockType> Rank for Vec<Block> {
    open spec fn rank_bits(&self) -> Seq<bool> {
        bits_of(self@)
    }

    fn rank(&self, position: u64) -> (r: u64) {
        rank_by_scan(self, position)
    }
}

/// A vector of blocks answers select queries over all of its bits.
impl<Block: BlockType> Select for Vec<Block> {
    open spec fn select_bits(&self) -> Seq<bool> {
        bits_of(self@)
    }

    fn select(&self, index: u64) -> (position: u64) {
        select_by_scan(self, index)
    }
}

} // verus!
