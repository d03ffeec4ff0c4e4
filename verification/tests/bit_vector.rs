use succinct_bits::{BitVector, BitVectorMut, OutOfBounds};

#[test]
fn bit_len() {
    let v = vec![0u32; 4];
    assert_eq!(128, v.bit_len());
}

#[test]
fn block_len() {
    let v = vec![0u32; 4];
    assert_eq!(4, v.block_len());
}

#[test]
fn set_get_bit() {
    let mut v = vec![0b10101010u8; 4];
    assert!(v.get_bit(0));
    assert!(!v.get_bit(1));
    assert!(v.get_bit(2));
    assert!(!v.get_bit(3));

    v.set_bit(2, false);

    assert!(v.get_bit(0));
    assert!(!v.get_bit(1));
    assert!(!v.get_bit(2));
    assert!(!v.get_bit(3));
}

#[test]
fn bit_len_is_block_len_times_width() {
    assert_eq!(3 * 8, vec![0u8; 3].bit_len());
    assert_eq!(5 * 16, vec![0u16; 5].bit_len());
    assert_eq!(7 * 32, vec![0u32; 7].bit_len());
    assert_eq!(2 * 64, vec![0u64; 2].bit_len());
    assert_eq!(6 * usize::BITS as u64, vec![0usize; 6].bit_len());
    assert_eq!(0, Vec::<u32>::new().bit_len());
}

#[test]
fn slices_of_blocks_are_bit_vectors() {
    let mut blocks = [0u16, 0xffff, 0x8001];
    let v: &mut [u16] = &mut blocks;
    assert_eq!(3, v.block_len());
    assert_eq!(48, v.bit_len());
    assert_eq!(0xffff, v.get_block(1));
    assert!(!v.get_bit(15));
    assert!(v.get_bit(16));
    assert!(v.get_bit(32));
    assert!(!v.get_bit(33));
    assert!(v.get_bit(47));
    v.set_block(0, 0x0100);
    assert!(v.get_bit(7));
    v.set_bit(47, false);
    assert_eq!(0x8000, v.get_block(2));
}

#[test]
fn get_block_and_set_block() {
    let mut v = vec![1u32, 2, 3];
    assert_eq!(2, v.get_block(1));
    v.set_block(1, 0xdead_beef);
    assert_eq!(0xdead_beef, v.get_block(1));
    assert_eq!(1, v.get_block(0));
    assert_eq!(3, v.get_block(2));
}

#[test]
fn positions_past_the_first_block() {
    let v = vec![0x00u8, 0x40, 0x01];
    assert!(!v.get_bit(8));
    assert!(v.get_bit(9));
    assert!(!v.get_bit(10));
    assert!(!v.get_bit(22));
    assert!(v.get_bit(23));
    let w = vec![0u64, 0, 0, 1];
    assert!(w.get_bit(255));
    assert!(!w.get_bit(254));
}

#[test]
fn set_bit_then_get_bit_returns_the_value() {
    let mut v = vec![0x0f0fu16; 3];
    for p in 0..48u64 {
        let before: Vec<bool> = (0..48u64).map(|q| v.get_bit(q)).collect();
        for value in [true, false, true] {
            v.set_bit(p, value);
            assert_eq!(value, v.get_bit(p));
            for q in 0..48u64 {
                if q != p {
                    assert_eq!(before[q as usize], v.get_bit(q));
                }
            }
        }
    }
}

#[test]
fn set_bit_changes_one_block_only() {
    let mut v = vec![0u32; 3];
    v.set_bit(33, true);
    assert_eq!(vec![0u32, 0x4000_0000, 0], v);
    v.set_bit(95, true);
    assert_eq!(vec![0u32, 0x4000_0000, 1], v);
    v.set_bit(33, false);
    assert_eq!(vec![0u32, 0, 1], v);
}

#[test]
fn try_get_bit_reports_positions_out_of_bounds() {
    let v = vec![0b10101010u8; 4];
    assert_eq!(Ok(true), v.try_get_bit(0));
    assert_eq!(Ok(false), v.try_get_bit(31));
    assert_eq!(Err(OutOfBounds), v.try_get_bit(32));
    assert_eq!(Err(OutOfBounds), v.try_get_bit(33));
    assert_eq!(Err(OutOfBounds), v.try_get_bit(u64::MAX));
    let empty: Vec<u64> = Vec::new();
    assert_eq!(Err(OutOfBounds), empty.try_get_bit(0));
}

#[test]
fn try_set_bit_reports_positions_out_of_bounds() {
    let mut v = vec![0u8; 2];
    assert_eq!(Ok(()), v.try_set_bit(15, true));
    assert_eq!(vec![0u8, 1], v);
    assert_eq!(Err(OutOfBounds), v.try_set_bit(16, true));
    assert_eq!(Err(OutOfBounds), v.try_set_bit(u64::MAX, true));
    assert_eq!(vec![0u8, 1], v);
}
