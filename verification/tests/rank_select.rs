use succinct_bits::bit_vector::scan::{rank_by_scan, select_by_scan};
use succinct_bits::{BitVector, Rank, Select};

#[test]
fn rank_counts_set_bits_up_to_and_including_the_position() {
    let v = vec![0b10101010u8; 4];
    assert_eq!(1, v.rank(0));
    assert_eq!(1, v.rank(1));
    assert_eq!(2, v.rank(2));
    assert_eq!(4, v.rank(7));
    assert_eq!(5, v.rank(8));
    assert_eq!(16, v.rank(31));
    let w = vec![0u32, 0xffff_ffff];
    assert_eq!(0, w.rank(31));
    assert_eq!(1, w.rank(32));
    assert_eq!(32, w.rank(63));
}

#[test]
fn rank0_counts_unset_bits() {
    let v = vec![0b10101010u8; 4];
    assert_eq!(0, v.rank0(0));
    assert_eq!(1, v.rank0(1));
    assert_eq!(1, v.rank0(2));
    assert_eq!(4, v.rank0(7));
    assert_eq!(16, v.rank0(31));
}

#[test]
fn rank0_and_rank_add_up_to_the_prefix_length() {
    let v = vec![0x12u8, 0x34, 0x56, 0x78, 0x9a, 0xbc, 0xde, 0xf0];
    for p in 0..64u64 {
        assert_eq!(p + 1, v.rank0(p) + v.rank(p));
    }
}

#[test]
fn rank_never_decreases() {
    let v = vec![0x8421u16, 0x0000, 0xffff, 0x1248];
    let mut last = 0;
    for p in 0..64u64 {
        let r = v.rank(p);
        assert!(last <= r);
        assert!(r <= last + 1);
        last = r;
    }
    assert_eq!(24, last);
}

#[test]
fn select_finds_the_set_bits_in_order() {
    let v = vec![0b10101010u8; 4];
    assert_eq!(0, v.select(0));
    assert_eq!(2, v.select(1));
    assert_eq!(8, v.select(4));
    assert_eq!(30, v.select(15));
    let w = vec![0u64, 1, 0x8000_0000_0000_0000];
    assert_eq!(127, w.select(0));
    assert_eq!(128, w.select(1));
}

#[test]
fn select_undoes_rank_at_set_bits() {
    let v = vec![0x12u8, 0x34, 0x56, 0x78, 0x9a, 0xbc, 0xde, 0xf0];
    for p in 0..64u64 {
        if v.get_bit(p) {
            assert_eq!(p, v.select(v.rank(p) - 1));
        }
    }
}

#[test]
fn rank_of_select_is_one_more_than_the_index() {
    let v = vec![0x0f0f_0f0fu32, 0, 0xf000_000f];
    let ones = v.rank(95);
    assert_eq!(24, ones);
    for k in 0..ones {
        let p = v.select(k);
        assert!(v.get_bit(p));
        assert_eq!(k + 1, v.rank(p));
    }
}

#[test]
fn scans_work_on_slices_of_blocks() {
    let blocks = [0x80u8, 0x01];
    let v: &[u8] = &blocks;
    assert_eq!(1, rank_by_scan(v, 0));
    assert_eq!(1, rank_by_scan(v, 14));
    assert_eq!(2, rank_by_scan(v, 15));
    assert_eq!(0, select_by_scan(v, 0));
    assert_eq!(15, select_by_scan(v, 1));
    assert_eq!(2, v.rank(15));
    assert_eq!(14, v.rank0(15));
    assert_eq!(15, v.select(1));
}
