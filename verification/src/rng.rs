//! A small linear congruential generator for reproducible demonstrations.
//!
//! The generator is deterministic and predictable. It serves to make a
//! demonstration setup repeatable and must not be used where randomness
//! protects anything.

use vstd::prelude::*;

verus! {

/// Multiplier of the generator.
pub const LCG_MULTIPLIER: u64 = 1103515245;

/// Increment of the generator.
pub const LCG_INCREMENT: u64 = 12345;

/// The state that follows `state`: `state * 1103515245 + 12345` modulo
/// `2^64`.
pub open spec fn lcg_next(state: u64) -> u64 {
    ((state * LCG_MULTIPLIER + LCG_INCREMENT) % 0x1_0000_0000_0000_0000) as u64
}

/// The state after `draws` draws from `seed`.
pub open spec fn lcg_state(seed: u64, draws: nat) -> u64
    decreases draws,
{
    if draws == 0 {
        seed
    } else {
        lcg_next(lcg_state(seed, (draws - 1) as nat))
    }
}

/// The word that a state gives out: its upper 32 bits.
pub open spec fn lcg_output(state: u64) -> u32 {
    (state / 0x1_0000_0000) as u32
}

/// The `k`-th word drawn from `seed`, counted from 1.
pub open spec fn lcg_draw(seed: u64, k: nat) -> u32 {
    lcg_output(lcg_state(seed, k))
}

/// Byte `k` of a word in little-endian order.
pub open spec fn le_byte(word: u32, k: int) -> u8 {
    if k == 0 {
        (word % 256) as u8
    } else if k == 1 {
        (word / 0x100 % 256) as u8
    } else if k == 2 {
        (word / 0x1_0000 % 256) as u8
    } else {
        (word / 0x100_0000) as u8
    }
}

/// A linear congruential generator over a 64-bit state.
pub struct SimpleRng {
    state: u64,
}

impl View for SimpleRng {
    type V = u64;

    /// The current state.
    closed spec fn view(&self) -> u64 {
        self.state
    }
}

/// The four bytes of a word in little-endian order.
fn le_bytes(word: u32) -> (bytes: [u8; 4])
    ensures
        forall|k: int| 0 <= k < 4 ==> bytes[k] == le_byte(word, k),
{
    let b0 = (word & 0xff) as u8;
    let b1 = ((word >> 8) & 0xff) as u8;
    let b2 = ((word >> 16) & 0xff) as u8;
    let b3 = ((word >> 24) & 0xff) as u8;
    assert(word & 0xff == word % 256) by (bit_vector);
    assert((word >> 8) & 0xff == word / 0x100 % 256) by (bit_vector);
    assert((word >> 16) & 0xff == word / 0x1_0000 % 256) by (bit_vector);
    assert((word >> 24) & 0xff == word / 0x100_0000) by (bit_vector);
    [b0, b1, b2, b3]
}

impl SimpleRng {
    /// A generator that starts from `seed`.
    pub fn new(seed: u64) -> (rng: Self)
        ensures
            rng@ == seed,
    {
        Self { state: seed }
    }

    /// Advances the state once and returns its upper 32 bits.
    pub fn next_u32(&mut self) -> (word: u32)
        ensures
            final(self)@ == lcg_next(old(self)@),
            word == lcg_output(final(self)@),
    {
        self.state = self.state.wrapping_mul(LCG_MULTIPLIER).wrapping_add(LCG_INCREMENT);
        let state = self.state;
        assert(state >> 32 == state / 0x1_0000_0000) by (bit_vector);
        assert(state >> 32 <= 0xffff_ffff) by (bit_vector);
        (state >> 32) as u32
    }

    /// Draws two words and joins them, the first as the upper half.
    pub fn next_u64(&mut self) -> (value: u64)
        ensures
            final(self)@ == lcg_state(old(self)@, 2),
            value == lcg_draw(old(self)@, 1) * 0x1_0000_0000 + lcg_draw(old(self)@, 2),
    {
        let high = self.next_u32() as u64;
        let low = self.next_u32() as u64;
        proof {
            reveal_with_fuel(lcg_state, 3);
        }
        assert((high << 32) | low == high * 0x1_0000_0000 + low) by (bit_vector)
            requires
                high <= 0xffff_ffff,
                low <= 0xffff_ffff,
        ;
        (high << 32) | low
    }

    /// Fills `dest` with the bytes of successive words, each in
    /// little-endian order. A last word that does not fit whole gives its
    /// first bytes.
    pub fn fill_bytes(&mut self, dest: &mut [u8])
        ensures
            final(dest)@.len() == old(dest)@.len(),
            final(self)@ == lcg_state(old(self)@, ((old(dest)@.len() + 3) / 4) as nat),
            forall|i: int|
                0 <= i < old(dest)@.len() ==> #[trigger] final(dest)@[i] == le_byte(
                    lcg_draw(old(self)@, (i / 4 + 1) as nat),
                    i % 4,
                ),
    {
        let len = dest.len();
        let ghost seed = self@;
        let mut pos: usize = 0;
        while pos < len
            invariant
                dest@.len() == len,
                pos <= len,
                pos % 4 == 0 || pos == len,
                self@ == lcg_state(seed, ((pos + 3) / 4) as nat),
                forall|i: int|
                    0 <= i < pos ==> #[trigger] dest@[i] == le_byte(
                        lcg_draw(seed, (i / 4 + 1) as nat),
                        i % 4,
                    ),
            decreases len - pos,
        {
            let word = self.next_u32();
            let bytes = le_bytes(word);
            let count: usize = if len - pos < 4 { len - pos } else { 4 };
            let mut k: usize = 0;
            while k < count
                invariant
                    dest@.len() == len,
                    pos < len,
                    pos % 4 == 0,
                    count <= 4,
                    count <= len - pos,
                    k <= count,
                    word == lcg_draw(seed, (pos / 4 + 1) as nat),
                    forall|j: int| 0 <= j < 4 ==> bytes[j] == le_byte(word, j),
                    forall|i: int|
                        0 <= i < pos + k ==> #[trigger] dest@[i] == le_byte(
                            lcg_draw(seed, (i / 4 + 1) as nat),
                            i % 4,
                        ),
                decreases count - k,
            {
                dest[pos + k] = bytes[k];
                k += 1;
            }
            pos += count;
        }
    }
}

} // verus!
