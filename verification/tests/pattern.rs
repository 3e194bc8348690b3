use disk_scan::pattern::{fill_buffer, put_word, PATTERN_SEED};
use rand::{RngCore, SeedableRng};
use rand_xoshiro::Xoroshiro128PlusPlus;

#[test]
fn put_word_copies_least_significant_byte_first() {
    let mut buf = [0xffu8; 12];
    assert_eq!(put_word(&mut buf, 2, 0x0807_0605_0403_0201), 8);
    assert_eq!(buf, [0xff, 0xff, 1, 2, 3, 4, 5, 6, 7, 8, 0xff, 0xff]);
}

#[test]
fn put_word_copies_what_fits() {
    let mut buf = [0u8; 5];
    assert_eq!(put_word(&mut buf, 2, 0x0807_0605_0403_0201), 3);
    assert_eq!(buf, [0, 0, 1, 2, 3]);
    assert_eq!(put_word(&mut buf, 5, u64::MAX), 0);
    assert_eq!(buf, [0, 0, 1, 2, 3]);
}

#[test]
fn fill_buffer_yields_the_known_stream() {
    let mut rng = Xoroshiro128PlusPlus::seed_from_u64(PATTERN_SEED);
    let mut buf = [0u8; 20];
    fill_buffer(&mut rng, &mut buf);
    assert_eq!(
        buf,
        [
            35, 60, 29, 239, 202, 246, 138, 232, 49, 73, 165, 165, 178, 3, 163, 84, 69, 99, 100,
            205
        ]
    );
}

#[test]
fn fill_buffer_uses_up_a_word_that_it_uses_in_part() {
    let mut rng = Xoroshiro128PlusPlus::seed_from_u64(PATTERN_SEED);
    let mut other = Xoroshiro128PlusPlus::seed_from_u64(PATTERN_SEED);
    let mut buf = [0u8; 9];
    fill_buffer(&mut rng, &mut buf);
    other.next_u64();
    other.next_u64();
    assert_eq!(rng.next_u64(), other.next_u64());
    assert_eq!(rng, other);
}

#[test]
fn fill_buffer_leaves_the_generator_for_an_empty_buffer() {
    let mut rng = Xoroshiro128PlusPlus::seed_from_u64(7);
    let before = rng.clone();
    let mut buf: [u8; 0] = [];
    fill_buffer(&mut rng, &mut buf);
    assert_eq!(rng, before);
}
