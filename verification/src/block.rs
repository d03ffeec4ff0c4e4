//! The block capability: fixed-width unsigned integers addressed bit by bit.

use vstd::prelude::*;

verus! {

/// A fixed-width storage unit whose bits can be read and replaced one at a
/// time.
///
/// The model of a block is the sequence of its bits, `bits()`, which has
/// `spec_nbits()` entries for every block of the type. Replacing a bit yields
/// a new block; the block it was made from is left as it was.
pub trait BlockType: Copy + Sized {
    /// The number of bits in every block of this type.
    spec fn spec_nbits() -> nat;

    /// The bits of this block, indexed by offset.
    spec fn bits(self) -> Seq<bool>;

    /// The width is positive and fits in a `usize`.
    proof fn lemma_nbits_bounds()
        ensures
            0 < Self::spec_nbits() <= usize::MAX,
    ;

    /// Every block has exactly `spec_nbits()` bits.
    proof fn lemma_bits_len(self)
        ensures
            self.bits().len() == Self::spec_nbits(),
    ;

    /// The number of bits in a block.
    fn nbits() -> (n: usize)
        ensures
            n == Self::spec_nbits(),
    ;

    /// Reads the bit at `offset`.
    fn get_bit(self, offset: usize) -> (b: bool)
        requires
            offset < Self::spec_nbits(),
        ensures
            b == self.bits()[offset as int],
    ;

    /// Returns this block with the bit at `offset` replaced by `value`.
    fn set_bit(self, offset: usize, value: bool) -> (r: Self)
        requires
            offset < Self::spec_nbits(),
        ensures
            r.bits() == self.bits().update(offset as int, value),
    ;
}

/// Bit `offset` of an 8-bit block. Offset 0 is the most significant bit.
pub open spec fn u8_bit(x: u8, offset: int) -> bool {
    (x >> ((7 - offset) as u8)) & 1 == 1
}

/// Setting or clearing the bit that `1 << s` masks changes the bit read by
/// `>> s` and no other.
proof fn lemma_u8_mask(x: u8, s: u8, t: u8)
    by (bit_vector)
    requires
        s < 8,
        t < 8,
    ensures
        ((x | (1u8 << s)) >> t) & 1 == 1 <==> (s == t || (x >> t) & 1 == 1),
        ((x & !(1u8 << s)) >> t) & 1 == 1 <==> (s != t && (x >> t) & 1 == 1),
{
}

impl BlockType for u8 {
    open spec fn spec_nbits() -> nat {
        8
    }

    open spec fn bits(self) -> Seq<bool> {
        Seq::new(8, |offset: int| u8_bit(self, offset))
    }

    proof fn lemma_nbits_bounds() {
    }

    proof fn lemma_bits_len(self) {
    }

    fn nbits() -> (n: usize) {
        8
    }

    fn get_bit(self, offset: usize) -> (b: bool) {
        (self >> (7 - offset as u8)) & 1 == 1
    }

    fn set_bit(self, offset: usize, value: bool) -> (r: Self) {
        let mask: u8 = 1u8 << (7 - offset as u8);
        let r = if value {
            self | mask
        } else {
            self & !mask
        };
        proof {
            assert forall|other: int| 0 <= other < 8 implies r.bits()[other] == self.bits().update(
                offset as int,
                value,
            )[other] by {
                lemma_u8_mask(self, (7 - offset) as u8, (7 - other) as u8);
            }
            assert(r.bits() =~= self.bits().update(offset as int, value));
        }
        r
    }
}

/// Bit `offset` of a 16-bit block. Offset 0 is the most significant bit.
pub open spec fn u16_bit(x: u16, offset: int) -> bool {
    (x >> ((15 - offset) as u16)) & 1 == 1
}

/// Setting or clearing the bit that `1 << s` masks changes the bit read by
/// `>> s` and no other.
proof fn lemma_u16_mask(x: u16, s: u16, t: u16)
    by (bit_vector)
    requires
        s < 16,
        t < 16,
    ensures
        ((x | (1u16 << s)) >> t) & 1 == 1 <==> (s == t || (x >> t) & 1 == 1),
        ((x & !(1u16 << s)) >> t) & 1 == 1 <==> (s != t && (x >> t) & 1 == 1),
{
}

impl BlockType for u16 {
    open spec fn spec_nbits() -> nat {
        16
    }

    open spec fn bits(self) -> Seq<bool> {
        Seq::new(16, |offset: int| u16_bit(self, offset))
    }

    proof fn lemma_nbits_bounds() {
    }

    proof fn lemma_bits_len(self) {
    }

    fn nbits() -> (n: usize) {
        16
    }

    fn get_bit(self, offset: usize) -> (b: bool) {
        (self >> (15 - offset as u16)) & 1 == 1
    }

    fn set_bit(self, offset: usize, value: bool) -> (r: Self) {
        let mask: u16 = 1u16 << (15 - offset as u16);
        let r = if value {
            self | mask
        } else {
            self & !mask
        };
        proof {
            assert forall|other: int| 0 <= other < 16 implies r.bits()[other] == self.bits().update(
                offset as int,
                value,
            )[other] by {
                lemma_u16_mask(self, (15 - offset) as u16, (15 - other) as u16);
            }
            assert(r.bits() =~= self.bits().update(offset as int, value));
        }
        r
    }
}

/// Bit `offset` of a 32-bit block. Offset 0 is the most significant bit.
pub open spec fn u32_bit(x: u32, offset: int) -> bool {
    (x >> ((31 - offset) as u32)) & 1 == 1
}

/// Setting or clearing the bit that `1 << s` masks changes the bit read by
/// `>> s` and no other.
proof fn lemma_u32_mask(x: u32, s: u32, t: u32)
    by (bit_vector)
    requires
        s < 32,
        t < 32,
    ensures
        ((x | (1u32 << s)) >> t) & 1 == 1 <==> (s == t || (x >> t) & 1 == 1),
        ((x & !(1u32 << s)) >> t) & 1 == 1 <==> (s != t && (x >> t) & 1 == 1),
{
}

impl BlockType for u32 {
    open spec fn spec_nbits() -> nat {
        32
    }

    open spec fn bits(self) -> Seq<bool> {
        Seq::new(32, |offset: int| u32_bit(self, offset))
    }

    proof fn lemma_nbits_bounds() {
    }

    proof fn lemma_bits_len(self) {
    }

    fn nbits() -> (n: usize) {
        32
    }

    fn get_bit(self, offset: usize) -> (b: bool) {
        (self >> (31 - offset as u32)) & 1 == 1
    }

    fn set_bit(self, offset: usize, value: bool) -> (r: Self) {
        let mask: u32 = 1u32 << (31 - offset as u32);
        let r = if value {
            self | mask
        } else {
            self & !mask
        };
        proof {
            assert forall|other: int| 0 <= other < 32 implies r.bits()[other] == self.bits().update(
                offset as int,
                value,
            )[other] by {
                lemma_u32_mask(self, (31 - offset) as u32, (31 - other) as u32);
            }
            assert(r.bits() =~= self.bits().update(offset as int, value));
        }
        r
    }
}

/// Bit `offset` of a 64-bit block. Offset 0 is the most significant bit.
pub open spec fn u64_bit(x: u64, offset: int) -> bool {
    (x >> ((63 - offset) as u64)) & 1 == 1
}

/// Setting or clearing the bit that `1 << s` masks changes the bit read by
/// `>> s` and no other.
proof fn lemma_u64_mask(x: u64, s: u64, t: u64)
    by (bit_vector)
    requires
        s < 64,
        t < 64,
    ensures
        ((x | (1u64 << s)) >> t) & 1 == 1 <==> (s == t || (x >> t) & 1 == 1),
        ((x & !(1u64 << s)) >> t) & 1 == 1 <==> (s != t && (x >> t) & 1 == 1),
{
}

impl BlockType for u64 {
    open spec fn spec_nbits() -> nat {
        64
    }

    open spec fn bits(self) -> Seq<bool> {
        Seq::new(64, |offset: int| u64_bit(self, offset))
    }

    proof fn lemma_nbits_bounds() {
    }

    proof fn lemma_bits_len(self) {
    }

    fn nbits() -> (n: usize) {
        64
    }

    fn get_bit(self, offset: usize) -> (b: bool) {
        (self >> (63 - offset as u64)) & 1 == 1
    }

    fn set_bit(self, offset: usize, value: bool) -> (r: Self) {
        let mask: u64 = 1u64 << (63 - offset as u64);
        let r = if value {
            self | mask
        } else {
            self & !mask
        };
        proof {
            assert forall|other: int| 0 <= other < 64 implies r.bits()[other] == self.bits().update(
                offset as int,
                value,
            )[other] by {
                lemma_u64_mask(self, (63 - offset) as u64, (63 - other) as u64);
            }
            assert(r.bits() =~= self.bits().update(offset as int, value));
        }
        r
    }
}

/// Bit `offset` of a pointer-sized block. Offset 0 is the most significant bit.
pub open spec fn usize_bit(x: usize, offset: int) -> bool {
    (x >> ((usize::BITS - 1 - offset) as usize)) & 1 == 1
}

/// Setting or clearing the bit that `1 << s` masks changes the bit read by
/// `>> s` and no other.
proof fn lemma_usize_mask(x: usize, s: usize, t: usize)
    by (bit_vector)
    requires
        s < usize::BITS,
        t < usize::BITS,
    ensures
        ((x | (1usize << s)) >> t) & 1 == 1 <==> (s == t || (x >> t) & 1 == 1),
        ((x & !(1usize << s)) >> t) & 1 == 1 <==> (s != t && (x >> t) & 1 == 1),
{
}

impl BlockType for usize {
    open spec fn spec_nbits() -> nat {
        usize::BITS as nat
    }

    open spec fn bits(self) -> Seq<bool> {
        Seq::new(usize::BITS as nat, |offset: int| usize_bit(self, offset))
    }

    proof fn lemma_nbits_bounds() {
    }

    proof fn lemma_bits_len(self) {
    }

    fn nbits() -> (n: usize) {
        usize::BITS as usize
    }

    fn get_bit(self, offset: usize) -> (b: bool) {
        (self >> (usize::BITS as usize - 1 - offset)) & 1 == 1
    }

    fn set_bit(self, offset: usize, value: bool) -> (r: Self) {
        let mask: usize = 1usize << (usize::BITS as usize - 1 - offset);
        let r = if value {
            self | mask
        } else {
            self & !mask
        };
        proof {
            assert forall|other: int| 0 <= other < usize::BITS implies r.bits()[other]
                == self.bits().update(offset as int, value)[other] by {
                lemma_usize_mask(
                    self,
                    (usize::BITS - 1 - offset) as usize,
                    (usize::BITS - 1 - other) as usize,
                );
            }
            assert(r.bits() =~= self.bits().update(offset as int, value));
        }
        r
    }
}

} // verus!
