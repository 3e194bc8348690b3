//! The byte pattern that a scan writes to a device and reads back.
//!
//! The pattern is the output of a xoroshiro128++ generator with a fixed seed, so that the
//! bytes can be produced a second time instead of being kept.

use rand::{RngCore, SeedableRng};
use rand_xoshiro::Xoroshiro128PlusPlus;
use vstd::prelude::*;

verus! {

/// The seed of every scan.
pub const PATTERN_SEED: u64 = 42;

/// The generator type of `rand_xoshiro`. Its state is opaque here; what matters of a state is
/// the words that it is going to yield, see [`upcoming_word`].
#[verifier::external_type_specification]
#[verifier::external_body]
pub struct ExXoroshiro128PlusPlus(Xoroshiro128PlusPlus);

/// The word that the generator `rng` yields after `index` others.
pub uninterp spec fn upcoming_word(rng: Xoroshiro128PlusPlus, index: nat) -> u64;

/// The word that a generator made by `seed_from_u64(seed)` yields after `index` others.
pub uninterp spec fn seeded_word(seed: u64, index: nat) -> u64;

/// Calls `<Xoroshiro128PlusPlus as SeedableRng>::seed_from_u64`. The claim is that the words
/// which the new generator is going to yield depend on `seed` alone.
#[verifier::external_body]
pub(crate) fn seeded_generator(seed: u64) -> (rng: Xoroshiro128PlusPlus)
    ensures
        forall|index: nat| #[trigger] upcoming_word(rng, index) == seeded_word(seed, index),
{
    Xoroshiro128PlusPlus::seed_from_u64(seed)
}

/// Calls `<Xoroshiro128PlusPlus as RngCore>::next_u64`. The claim is that the call hands out the
/// first of the upcoming words and leaves the others upcoming, in their order.
#[verifier::external_body]
pub(crate) fn next_word(rng: &mut Xoroshiro128PlusPlus) -> (word: u64)
    ensures
        word == upcoming_word(*old(rng), 0),
        forall|index: nat| #[trigger]
            upcoming_word(*final(rng), index) == upcoming_word(*old(rng), index + 1),
{
    rng.next_u64()
}

/// Digit `k` of `value` in base 256, the least significant digit being digit 0.
pub open spec fn byte_of(value: nat, k: nat) -> u8
    decreases k,
{
    if k == 0 {
        (value % 256) as u8
    } else {
        byte_of(value / 256, (k - 1) as nat)
    }
}

/// The number of words that fill `len` bytes. The last word may be used in part only.
pub open spec fn words_for(len: nat) -> nat {
    (len + 7) / 8
}

/// The first `len` bytes of the words of a generator, each word least significant byte first.
pub open spec fn upcoming_bytes(rng: Xoroshiro128PlusPlus, len: nat) -> Seq<u8> {
    Seq::new(len, |i: int| byte_of(upcoming_word(rng, (i / 8) as nat) as nat, (i % 8) as nat))
}

/// Copies the bytes of `word`, least significant byte first, to `buf` from `pos` on, as many
/// of the eight as fit. Gives the number of bytes copied.
pub fn put_word(buf: &mut [u8], pos: usize, word: u64) -> (taken: usize)
    requires
        pos <= old(buf)@.len(),
    ensures
        taken == vstd::math::min(8, old(buf)@.len() - pos),
        final(buf)@.len() == old(buf)@.len(),
        forall|i: int|
            0 <= i < old(buf)@.len() ==> #[trigger] final(buf)@[i] == if pos <= i < pos + taken {
                byte_of(word as nat, (i - pos) as nat)
            } else {
                old(buf)@[i]
            },
{
    let remaining: usize = buf.len() - pos;
    let take: usize = if remaining < 8 {
        remaining
    } else {
        8
    };
    let mut rest: u64 = word;
    let mut k: usize = 0;
    let ghost before = buf@;
    while k < take
        invariant
            pos + take <= before.len() <= usize::MAX,
            k <= take,
            buf@.len() == before.len(),
            forall|j: nat| #[trigger] byte_of(rest as nat, j) == byte_of(word as nat, k as nat + j),
            forall|i: int|
                0 <= i < before.len() ==> #[trigger] buf@[i] == if pos <= i < pos + k {
                    byte_of(word as nat, (i - pos) as nat)
                } else {
                    before[i]
                },
        decreases take - k,
    {
        assert(byte_of(rest as nat, 0) == byte_of(word as nat, k as nat));
        buf[pos + k] = (rest % 256) as u8;
        proof {
            assert forall|j: nat| #[trigger]
                byte_of((rest / 256) as nat, j) == byte_of(word as nat, (k + 1) as nat + j) by {
                assert(byte_of(rest as nat, j + 1) == byte_of((rest / 256) as nat, j));
            }
        }
        rest = rest / 256;
        k = k + 1;
    }
    take
}

/// Fills `buf` with the upcoming bytes of `rng`.
///
/// A word that is used in part is used up: the next call starts with the next word.
pub fn fill_buffer(rng: &mut Xoroshiro128PlusPlus, buf: &mut [u8])
    ensures
        final(buf)@ == upcoming_bytes(*old(rng), old(buf)@.len()),
        forall|index: nat| #[trigger]
            upcoming_word(*final(rng), index) == upcoming_word(
                *old(rng),
                index + words_for(old(buf)@.len()),
            ),
{
    let mut i: usize = 0;
    let ghost start = *rng;
    let ghost len = buf@.len();
    let ghost mut words: nat = 0;
    while i < buf.len()
        invariant
            buf@.len() == len,
            i <= len,
            words == words_for(i as nat),
            i < len ==> i == 8 * words,
            forall|index: nat| #[trigger]
                upcoming_word(*rng, index) == upcoming_word(start, index + words),
            forall|j: int| 0 <= j < i ==> #[trigger] buf@[j] == upcoming_bytes(start, len)[j],
        decreases len - i,
    {
        let ghost before = buf@;
        let ghost here = *rng;
        let word: u64 = next_word(rng);
        let taken: usize = put_word(buf, i, word);
        proof {
            assert(upcoming_word(here, 0) == upcoming_word(start, words));
            assert forall|index: nat| #[trigger]
                upcoming_word(*rng, index) == upcoming_word(start, index + (words + 1)) by {
                assert(upcoming_word(here, index + 1) == upcoming_word(start, index + 1 + words));
            }
            assert forall|j: int| 0 <= j < i + taken implies #[trigger] buf@[j] == upcoming_bytes(
                start,
                len,
            )[j] by {
                if j < i {
                    assert(buf@[j] == before[j]);
                } else {
                    assert(j / 8 == words && j % 8 == j - i);
                }
            }
            words = words + 1;
        }
        i = i + taken;
    }
    assert(buf@ =~= upcoming_bytes(start, len));
}

pub(crate) proof fn lemma_byte_of(value: nat, k: nat)
    ensures
        byte_of(value, k) == (value as int / vstd::arithmetic::power::pow(256, k)) % 256,
    decreases k,
{
    reveal(vstd::arithmetic::power::pow);
    if k > 0 {
        lemma_byte_of(value / 256, (k - 1) as nat);
        let rest = vstd::arithmetic::power::pow(256, (k - 1) as nat);
        vstd::arithmetic::power::lemma_pow_positive(256, (k - 1) as nat);
        vstd::arithmetic::div_mod::lemma_div_denominator(value as int, 256, rest);
        assert(vstd::arithmetic::power::pow(256, k) == 256 * rest);
    } else {
        assert(value as int / 1 == value);
    }
}

/// A filled buffer holds the words of the generator one after the other, each with its least
/// significant byte first: byte `i` is digit `i % 8` in base 256 of word `i / 8`.
pub proof fn law_filled_buffer_holds_the_words(
    rng: &mut Xoroshiro128PlusPlus,
    buf: &mut [u8],
    i: int,
)
    requires
        call_ensures(fill_buffer, (rng, buf), ()),
        0 <= i < old(buf)@.len(),
    ensures
        final(buf)@[i] == (upcoming_word(*old(rng), (i / 8) as nat) as int
            / vstd::arithmetic::power::pow(256, (i % 8) as nat)) % 256,
{
    lemma_byte_of(upcoming_word(*old(rng), (i / 8) as nat) as nat, (i % 8) as nat);
}

/// A buffer is filled as a whole, and the generator goes on behind the last word that was used, be
/// it in part.
pub proof fn law_filling_uses_up_words(rng: &mut Xoroshiro128PlusPlus, buf: &mut [u8], index: nat)
    requires
        call_ensures(fill_buffer, (rng, buf), ()),
    ensures
        final(buf)@.len() == old(buf)@.len(),
        upcoming_word(*final(rng), index) == upcoming_word(
            *old(rng),
            index + (old(buf)@.len() + 7) / 8,
        ),
{
}

/// One buffer is filled like its parts one after the other, as long as the first part takes whole
/// words.
pub proof fn law_stream_can_be_taken_in_parts(
    rng: &mut Xoroshiro128PlusPlus,
    first: &mut [u8],
    again: &mut Xoroshiro128PlusPlus,
    second: &mut [u8],
    other: &mut Xoroshiro128PlusPlus,
    whole: &mut [u8],
)
    requires
        call_ensures(fill_buffer, (rng, first), ()),
        call_ensures(fill_buffer, (again, second), ()),
        call_ensures(fill_buffer, (other, whole), ()),
        *old(again) == *final(rng),
        *old(other) == *old(rng),
        old(first)@.len() % 8 == 0,
        old(whole)@.len() == old(first)@.len() + old(second)@.len(),
    ensures
        final(whole)@ == final(first)@ + final(second)@,
{
    let n = old(first)@.len();
    assert forall|i: int| 0 <= i < old(whole)@.len() implies #[trigger] final(whole)@[i] == (
    final(first)@ + final(second)@)[i] by {
        if i >= n {
            assert(i / 8 == (i - n) / 8 + n / 8 && i % 8 == (i - n) % 8);
            assert((n + 7) / 8 == n / 8);
        }
    }
    assert(final(whole)@ =~= final(first)@ + final(second)@);
}

/// A word is put at its place, as much of it as fits, and nothing else changes.
pub proof fn law_word_is_put_at_its_place(buf: &mut [u8], pos: usize, word: u64, taken: usize)
    requires
        pos <= old(buf)@.len(),
        call_ensures(put_word, (buf, pos, word), taken),
    ensures
        taken <= 8,
        taken == 8 || pos + taken == old(buf)@.len(),
        pos + taken <= old(buf)@.len() == final(buf)@.len(),
        forall|i: int|
            pos <= i < pos + taken ==> #[trigger] final(buf)@[i] == (word as int
                / vstd::arithmetic::power::pow(256, (i - pos) as nat)) % 256,
        forall|i: int|
            0 <= i < old(buf)@.len() && !(pos <= i < pos + taken) ==> #[trigger] final(buf)@[i]
                == old(buf)@[i],
{
    assert forall|i: int| pos <= i < pos + taken implies #[trigger] final(buf)@[i] == (word as int
        / vstd::arithmetic::power::pow(256, (i - pos) as nat)) % 256 by {
        lemma_byte_of(word as nat, (i - pos) as nat);
    }
}

} // verus!
