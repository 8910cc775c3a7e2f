//! A cursor-based reader extracting arbitrary-width, MSB-first bit fields
//! from a fixed-size byte block.

use vstd::arithmetic::power2::{lemma_pow2_strictly_increases, lemma_pow2_unfold, pow2};
use vstd::prelude::*;

verus! {

/// Bit `i` of `bytes`, counting most-significant-bit-first within each
/// byte, bytes in stored order: bit 0 is the top bit of `bytes[0]`.
pub open spec fn spec_bit(bytes: Seq<u8>, i: int) -> u32
    recommends
        0 <= i < 8 * bytes.len(),
{
    ((bytes[i / 8] as u32) >> ((7 - (i % 8)) as u32)) & 1
}

/// The unsigned value of the `n` bits starting at bit `start`, accumulated
/// MSB-first: bit `start` is the most significant bit of the result.
pub open spec fn spec_bits(bytes: Seq<u8>, start: int, n: int) -> int
    decreases n,
{
    if n <= 0 {
        0
    } else {
        2 * spec_bits(bytes, start, n - 1) + spec_bit(bytes, start + n - 1)
    }
}

pub proof fn lemma_bit_le_1(bytes: Seq<u8>, i: int)
    ensures
        spec_bit(bytes, i) <= 1,
{
    let y = bytes[i / 8] as u32;
    let s = (7 - (i % 8)) as u32;
    assert((y >> s) & 1 <= 1) by (bit_vector);
}

/// A one-bit field holds exactly that bit.
pub proof fn lemma_spec_bits_one(bytes: Seq<u8>, start: int)
    ensures
        spec_bits(bytes, start, 1) == spec_bit(bytes, start),
{
    reveal_with_fuel(spec_bits, 2);
}

pub proof fn lemma_spec_bits_bound(bytes: Seq<u8>, start: int, n: int)
    requires
        0 <= n,
    ensures
        0 <= spec_bits(bytes, start, n) < pow2(n as nat),
    decreases n,
{
    if n == 0 {
        assert(pow2(0) == 1) by {
            vstd::arithmetic::power2::lemma2_to64();
        }
    } else {
        lemma_spec_bits_bound(bytes, start, n - 1);
        lemma_bit_le_1(bytes, start + n - 1);
        lemma_pow2_unfold(n as nat);
    }
}

/// Reader over an `N`-byte block with a bit cursor starting at 0.
pub struct BitReader<const N: usize> {
    pub state: [u8; N],
    pub cursor: usize,
}

impl<const N: usize> BitReader<N> {
    pub fn new(block: [u8; N]) -> (r: Self)
        ensures
            r.state@ == block@,
            r.cursor == 0,
    {
        Self { state: block, cursor: 0 }
    }

    /// Consume the next `bits` bits, MSB-first, and return their value.
    /// Reading past the block's bit length is ruled out by contract.
    pub fn read(&mut self, bits: usize) -> (acc: u32)
        requires
            bits <= 32,
            old(self).cursor + bits <= 8 * (N as int),
            8 * (N as int) <= usize::MAX as int,
        ensures
            final(self).state@ == old(self).state@,
            final(self).cursor == old(self).cursor + bits,
            acc == spec_bits(old(self).state@, old(self).cursor as int, bits as int),
            acc < pow2(bits as nat),
    {
        let ghost start = self.cursor as int;
        let mut acc: u32 = 0;
        let mut i: usize = self.cursor;
        let end = self.cursor + bits;
        proof {
            lemma_spec_bits_bound(self.state@, start, 0);
        }
        while i < end
            invariant
                self.state@ == old(self).state@,
                self.cursor == old(self).cursor,
                start == old(self).cursor as int,
                start <= i <= end,
                end == start + bits,
                bits <= 32,
                end <= 8 * (N as int),
                acc == spec_bits(self.state@, start, i - start),
                acc < pow2((i - start) as nat),
            decreases end - i,
        {
            let index = i / 8;
            let shift = 7 - (i % 8);
            let bit = (self.state[index] as u32 >> (shift as u32)) & 1;
            proof {
                let k = (i - start) as nat;
                assert(bit == spec_bit(self.state@, i as int));
                lemma_bit_le_1(self.state@, i as int);
                if k + 1 < 32 {
                    lemma_pow2_strictly_increases(k + 1, 32);
                }
                assert(pow2(32) == 0x1_0000_0000) by {
                    vstd::arithmetic::power2::lemma2_to64();
                }
                lemma_pow2_unfold((k + 1) as nat);
                assert((acc << 1u32) | bit == 2 * acc + bit) by (bit_vector)
                    requires
                        acc < 0x8000_0000,
                        bit <= 1,
                ;
            }
            acc = (acc << 1u32) | bit;
            i = i + 1;
        }
        self.cursor = end;
        acc
    }
}

} // verus!
