//! Counting the set and unset bits of a bit sequence, and the facts about
//! those counts that rank and select queries rest on.

use vstd::prelude::*;

verus! {

/// The number of set bits among the first `n` bits of `bits`.
pub open spec fn count_ones(bits: Seq<bool>, n: int) -> nat
    decreases n,
{
    if n <= 0 {
        0
    } else {
        count_ones(bits, n - 1) + if bits[n - 1] {
            1nat
        } else {
            0nat
        }
    }
}

/// The number of unset bits among the first `n` bits of `bits`.
pub open spec fn count_zeros(bits: Seq<bool>, n: int) -> nat
    decreases n,
{
    if n <= 0 {
        0
    } else {
        count_zeros(bits, n - 1) + if bits[n - 1] {
            0nat
        } else {
            1nat
        }
    }
}

/// The rank at `position`: the number of set bits at positions
/// `0 ..= position`.
pub open spec fn rank_of(bits: Seq<bool>, position: int) -> nat {
    count_ones(bits, position + 1)
}

/// The rank of zeros at `position`: the number of unset bits at positions
/// `0 ..= position`.
pub open spec fn rank0_of(bits: Seq<bool>, position: int) -> nat {
    count_zeros(bits, position + 1)
}

/// `position` holds a set bit with exactly `index` set bits before it: with
/// set bits numbered from zero, it is where set bit number `index` lies.
pub open spec fn is_nth_one(bits: Seq<bool>, index: int, position: int) -> bool {
    &&& 0 <= position < bits.len()
    &&& bits[position]
    &&& count_ones(bits, position) == index
}

/// Among the first `n` bits, every bit is either set or unset: the two counts
/// add up to `n`.
pub proof fn lemma_counts_add_up(bits: Seq<bool>, n: int)
    requires
        0 <= n,
    ensures
        count_ones(bits, n) + count_zeros(bits, n) == n,
    decreases n,
{
    if n > 0 {
        lemma_counts_add_up(bits, n - 1);
    }
}

/// The count of set bits never goes down as the prefix grows.
pub proof fn lemma_count_ones_monotonic(bits: Seq<bool>, m: int, n: int)
    requires
        m <= n,
    ensures
        count_ones(bits, m) <= count_ones(bits, n),
    decreases n - m,
{
    if m < n {
        lemma_count_ones_monotonic(bits, m, n - 1);
    }
}

/// The rank of zeros and the rank at a position add up to the number of
/// positions up to and including it.
pub proof fn lemma_rank0_plus_rank(bits: Seq<bool>, position: int)
    requires
        0 <= position,
    ensures
        rank0_of(bits, position) + rank_of(bits, position) == position + 1,
{
    lemma_counts_add_up(bits, position + 1);
}

/// Rank never decreases as the position increases.
pub proof fn lemma_rank_monotonic(bits: Seq<bool>, lower: int, upper: int)
    requires
        lower <= upper,
    ensures
        rank_of(bits, lower) <= rank_of(bits, upper),
{
    lemma_count_ones_monotonic(bits, lower + 1, upper + 1);
}

/// Two set bits with the same number of set bits before them are the same
/// bit: an index selects at most one position.
pub proof fn lemma_nth_one_unique(bits: Seq<bool>, index: int, first: int, second: int)
    requires
        is_nth_one(bits, index, first),
        is_nth_one(bits, index, second),
    ensures
        first == second,
{
    if first < second {
        lemma_count_ones_monotonic(bits, first + 1, second);
    } else if second < first {
        lemma_count_ones_monotonic(bits, second + 1, first);
    }
}

/// Every index below the number of set bits among the first `n` bits selects
/// one of them.
pub proof fn lemma_nth_one_exists(bits: Seq<bool>, n: int, index: int) -> (position: int)
    requires
        0 <= n <= bits.len(),
        0 <= index < count_ones(bits, n),
    ensures
        position < n,
        is_nth_one(bits, index, position),
    decreases n,
{
    if bits[n - 1] && count_ones(bits, n - 1) == index {
        n - 1
    } else {
        lemma_nth_one_exists(bits, n - 1, index)
    }
}

/// With set bits numbered from zero, the rank at the position selected for
/// `index` is `index + 1`: rank recovers the index.
pub proof fn lemma_rank_of_select(bits: Seq<bool>, index: int, position: int)
    requires
        is_nth_one(bits, index, position),
    ensures
        rank_of(bits, position) == index + 1,
{
}

/// At a set bit, selecting the set bit numbered `rank - 1` leads back to the
/// position whose rank was taken.
pub proof fn lemma_select_of_rank(bits: Seq<bool>, position: int, selected: int)
    requires
        0 <= position < bits.len(),
        bits[position],
        is_nth_one(bits, rank_of(bits, position) - 1, selected),
    ensures
        selected == position,
{
    lemma_nth_one_unique(bits, rank_of(bits, position) - 1, position, selected);
}

} // verus!
