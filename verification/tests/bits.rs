use imagematch::{count_bits, set_bit};

#[test]
fn test_count_bits() {
    assert_eq!(count_bits(0), 0);
    assert_eq!(count_bits(1), 1);
    assert_eq!(count_bits(2), 1);
    assert_eq!(count_bits(3), 2);
    assert_eq!(count_bits(4), 1);
    assert_eq!(count_bits(5), 2);
}

#[test]
fn lib_test_set_bit() {
    assert_eq!(set_bit(0, 0), 1);
    assert_eq!(set_bit(0, 1), 2);
    assert_eq!(set_bit(0, 2), 4);
    assert_eq!(set_bit(1, 1), 3);
}

#[test]
fn imagematch_test_set_bit() {
    assert_eq!(set_bit(0, 0), 1);
    assert_eq!(set_bit(0, 1), 2);
    assert_eq!(set_bit(0, 2), 4);
    assert_eq!(set_bit(1, 1), 3);
}

#[test]
fn count_bits_of_full_word_is_64() {
    assert_eq!(count_bits(0xFFFF_FFFF_FFFF_FFFF), 64);
    assert_eq!(count_bits(u64::MAX - 1), 63);
}

#[test]
fn count_bits_of_single_bits() {
    let mut pos: u8 = 0;
    while pos < 64 {
        assert_eq!(count_bits(1u64 << pos), 1);
        assert_eq!(count_bits(!(1u64 << pos)), 63);
        pos += 1;
    }
}

#[test]
fn count_bits_agrees_with_count_ones() {
    let words: [u64; 6] = [
        0x8000_0000_0000_0000,
        0x8000_0000_0000_0001,
        0x0F0F_0F0F_0F0F_0F0F,
        0xDEAD_BEEF_0BAD_F00D,
        0x0000_0001_0000_0000,
        0x5555_5555_5555_5555,
    ];
    for word in words {
        assert_eq!(u32::from(count_bits(word)), word.count_ones());
    }
}

#[test]
fn set_bit_reaches_the_top_bit() {
    assert_eq!(set_bit(0, 63), 0x8000_0000_0000_0000);
    assert_eq!(set_bit(1, 63), 0x8000_0000_0000_0001);
}

#[test]
fn set_bit_keeps_a_bit_that_is_set() {
    assert_eq!(set_bit(0b1010, 1), 0b1010);
    assert_eq!(set_bit(u64::MAX, 17), u64::MAX);
}

#[test]
fn set_bit_adds_one_to_the_count() {
    let mut word: u64 = 0;
    let mut pos: u8 = 0;
    while pos < 64 {
        word = set_bit(word, pos);
        assert_eq!(count_bits(word), pos + 1);
        pos += 1;
    }
    assert_eq!(word, u64::MAX);
}
