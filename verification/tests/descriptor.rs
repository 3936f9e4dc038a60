use imagematch::{count_bits, discrepancy, PatchDescriptor};

const A: PatchDescriptor = [
    0xDEAD_BEEF_0BAD_F00D,
    0x0123_4567_89AB_CDEF,
    0,
    u64::MAX,
    0x8000_0000_0000_0001,
];

const B: PatchDescriptor = [
    0x0F0F_0F0F_0F0F_0F0F,
    0xFFFF_0000_FFFF_0000,
    u64::MAX,
    0x5555_5555_5555_5555,
    0x8000_0000_0000_0000,
];

#[test]
fn discrepancy_counts_common_bits() {
    let a: PatchDescriptor = [0b1011, 0, 0b1, u64::MAX, 0];
    let b: PatchDescriptor = [0b0110, 0b1, 0b1, 0xFF, u64::MAX];
    assert_eq!(discrepancy(&a, &b), 1 + 0 + 1 + 8 + 0);
}

#[test]
fn discrepancy_is_symmetric() {
    assert_eq!(discrepancy(&A, &B), discrepancy(&B, &A));
    assert_eq!(discrepancy(&A, &B), 22 + 12 + 0 + 32 + 1);
}

#[test]
fn discrepancy_with_itself_is_the_number_of_set_bits() {
    let mut bits: u16 = 0;
    for word in A {
        bits += u16::from(count_bits(word));
    }
    assert_eq!(discrepancy(&A, &A), bits);
    assert_eq!(discrepancy(&A, &A), 39 + 32 + 0 + 64 + 2);
}

#[test]
fn discrepancy_with_nothing_is_zero() {
    let nothing: PatchDescriptor = [0, 0, 0, 0, 0];
    assert_eq!(discrepancy(&A, &nothing), 0);
    assert_eq!(discrepancy(&nothing, &B), 0);
    assert_eq!(discrepancy(&nothing, &nothing), 0);
}

#[test]
fn discrepancy_is_at_most_320() {
    let full: PatchDescriptor = [u64::MAX, u64::MAX, u64::MAX, u64::MAX, u64::MAX];
    assert_eq!(discrepancy(&full, &full), 320);
}
