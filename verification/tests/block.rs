use succinct_bits::BlockType;

#[test]
fn widths_of_the_integer_blocks() {
    assert_eq!(8, <u8 as BlockType>::nbits());
    assert_eq!(16, <u16 as BlockType>::nbits());
    assert_eq!(32, <u32 as BlockType>::nbits());
    assert_eq!(64, <u64 as BlockType>::nbits());
    assert_eq!(usize::BITS as usize, <usize as BlockType>::nbits());
}

#[test]
fn offset_zero_is_the_most_significant_bit() {
    assert!(0x80u8.get_bit(0));
    assert!(!0x80u8.get_bit(7));
    assert!(1u8.get_bit(7));
    assert!(0x8000u16.get_bit(0));
    assert!(1u16.get_bit(15));
    assert!(0x8000_0000u32.get_bit(0));
    assert!(1u32.get_bit(31));
    assert!(0x8000_0000_0000_0000u64.get_bit(0));
    assert!(1u64.get_bit(63));
    assert!((1usize << (usize::BITS - 1)).get_bit(0));
    assert!(1usize.get_bit(usize::BITS as usize - 1));
    assert!(!1usize.get_bit(0));
}

#[test]
fn block_set_bit_returns_a_new_value() {
    let x = 0u8;
    let y = x.set_bit(0, true);
    assert_eq!(0, x);
    assert_eq!(0x80, y);
    assert_eq!(0x81, y.set_bit(7, true));
    assert_eq!(0x80, y.set_bit(0, true));
    assert_eq!(0, y.set_bit(0, false));
    assert_eq!(0x4000u16, 0u16.set_bit(1, true));
    assert_eq!(0xfffeu16, 0xffffu16.set_bit(15, false));
    assert_eq!(0x0000_0001u32, 0u32.set_bit(31, true));
    assert_eq!(0x7fff_ffffu32, 0xffff_ffffu32.set_bit(0, false));
    assert_eq!(0x0000_0001_0000_0000u64, 0u64.set_bit(31, true));
    assert_eq!(u64::MAX - 1, u64::MAX.set_bit(63, false));
    assert_eq!(1usize, 0usize.set_bit(usize::BITS as usize - 1, true));
    assert_eq!(usize::MAX >> 1, usize::MAX.set_bit(0, false));
}

#[test]
fn block_set_then_get_at_every_offset() {
    for offset in 0..32usize {
        let x = 0x1234_5678u32;
        for value in [true, false] {
            let y = x.set_bit(offset, value);
            assert_eq!(value, y.get_bit(offset));
            for other in 0..32usize {
                if other != offset {
                    assert_eq!(x.get_bit(other), y.get_bit(other));
                }
            }
        }
    }
}
