//! From forty timed pulse pairs to five checked bytes.
//!
//! The sensor sends each bit as a low period followed by a high period and
//! encodes the bit in which of the two lasted longer. Forty bits make five
//! bytes, most significant bit first; the last byte is the low eight bits of
//! the sum of the other four.

use crate::error::DhtError;
use vstd::prelude::*;

verus! {

/// Number of bits, and so of pulse pairs, in one transmission.
pub const PULSE_COUNT: usize = 40;

/// Number of bytes in one transmission, checksum included.
pub const FRAME_LEN: usize = 5;

/// How long the line stayed low, then high, during one bit, in ticks of
/// about a microsecond.
#[derive(Copy, Clone, Debug)]
pub struct Pulse {
    pub lo: u8,
    pub hi: u8,
}

impl Pulse {
    /// The bit is set exactly when the high period outlasted the low one.
    pub open spec fn spec_bit(&self) -> bool {
        self.hi > self.lo
    }

    /// The bit this pulse pair encodes.
    #[verifier::when_used_as_spec(spec_bit)]
    pub fn bit(&self) -> (set: bool)
        ensures
            set == self.spec_bit(),
    {
        self.hi > self.lo
    }
}

/// The bit of the pulse pair at `index`, as 0 or 1.
pub open spec fn bit_at(pulses: Seq<Pulse>, index: int) -> int {
    if pulses[index].spec_bit() {
        1
    } else {
        0
    }
}

/// Byte `index` of the transmission: the eight bits starting at pulse pair
/// `8 * index`, the first of them weighing most.
pub open spec fn frame_byte(pulses: Seq<Pulse>, index: int) -> int {
    128 * bit_at(pulses, 8 * index) + 64 * bit_at(pulses, 8 * index + 1) + 32 * bit_at(
        pulses,
        8 * index + 2,
    ) + 16 * bit_at(pulses, 8 * index + 3) + 8 * bit_at(pulses, 8 * index + 4) + 4 * bit_at(
        pulses,
        8 * index + 5,
    ) + 2 * bit_at(pulses, 8 * index + 6) + bit_at(pulses, 8 * index + 7)
}

/// The five bytes that forty pulse pairs spell out, in arrival order.
pub open spec fn frame_bytes(pulses: Seq<Pulse>) -> Seq<u8> {
    Seq::new(FRAME_LEN as nat, |index: int| frame_byte(pulses, index) as u8)
}

/// The value of the `count` bits that start at pulse pair `start`, read as a
/// binary number with the first bit weighing most.
spec fn prefix_value(pulses: Seq<Pulse>, start: int, count: nat) -> int
    decreases count,
{
    if count == 0 {
        0
    } else {
        2 * prefix_value(pulses, start, (count - 1) as nat) + bit_at(pulses, start + count - 1)
    }
}

proof fn lemma_prefix_value_bound(pulses: Seq<Pulse>, start: int, count: nat)
    requires
        count <= 8,
    ensures
        0 <= prefix_value(pulses, start, count) < vstd::arithmetic::power2::pow2(count),
    decreases count,
{
    vstd::arithmetic::power2::lemma2_to64();
    if count > 0 {
        lemma_prefix_value_bound(pulses, start, (count - 1) as nat);
        vstd::arithmetic::power2::lemma_pow2_unfold(count);
    }
}

proof fn lemma_prefix_value_full(pulses: Seq<Pulse>, index: int)
    ensures
        prefix_value(pulses, 8 * index, 8) == frame_byte(pulses, index),
        0 <= frame_byte(pulses, index) < 256,
{
    reveal_with_fuel(prefix_value, 9);
}

/// Reconstructs the five bytes of a transmission from its forty pulse pairs.
pub fn pack_bytes(pulses: &[Pulse; 40]) -> (bytes: [u8; 5])
    ensures
        bytes@ == frame_bytes(pulses@),
{
    let mut bytes: [u8; 5] = [0u8; 5];
    let mut index: usize = 0;
    while index < FRAME_LEN
        invariant
            index <= FRAME_LEN,
            forall|done: int| 0 <= done < index ==> bytes@[done] == frame_byte(pulses@, done),
        decreases FRAME_LEN - index,
    {
        let mut byte: u8 = 0;
        let mut count: usize = 0;
        while count < 8
            invariant
                index < FRAME_LEN,
                count <= 8,
                byte == prefix_value(pulses@, 8 * index, count as nat),
            decreases 8 - count,
        {
            proof {
                lemma_prefix_value_bound(pulses@, 8 * index, count as nat);
                vstd::arithmetic::power2::lemma2_to64();
                if count < 7 {
                    vstd::arithmetic::power2::lemma_pow2_strictly_increases(count as nat, 7);
                }
            }
            let shifted: u8 = byte << 1;
            assert(shifted == 2 * byte && (shifted | 1) == 2 * byte + 1) by (bit_vector)
                requires
                    shifted == byte << 1,
                    byte < 128,
            ;
            // if the high period is longer than the low period before it, the bit is a 1
            if pulses[8 * index + count].bit() {
                byte = shifted | 1;
            } else {
                byte = shifted;
            }
            count += 1;
        }
        proof {
            lemma_prefix_value_full(pulses@, index as int);
        }
        bytes[index] = byte;
        index += 1;
    }
    proof {
        assert forall|done: int| 0 <= done < FRAME_LEN implies bytes@[done] == frame_byte(
            pulses@,
            done,
        ) as u8 by {
            lemma_prefix_value_full(pulses@, done);
        }
    }
    bytes
}

/// The checksum of a transmission: the four payload bytes added up, modulo 256.
pub open spec fn checksum(bytes: Seq<u8>) -> u8 {
    ((bytes[0] + bytes[1] + bytes[2] + bytes[3]) % 256) as u8
}

/// Whether the checksum byte of a transmission matches its payload.
pub open spec fn checksum_holds(bytes: Seq<u8>) -> bool {
    bytes[4] == checksum(bytes)
}

/// Calculates the checksum of the four payload bytes.
pub fn calculate_checksum(bytes: &[u8; 5]) -> (sum: u8)
    ensures
        sum == checksum(bytes@),
{
    let total: u16 = bytes[0] as u16 + bytes[1] as u16 + bytes[2] as u16 + bytes[3] as u16;
    let low: u16 = total & 0xff;
    assert(low == total % 256) by (bit_vector)
        requires
            low == total & 0xff,
    ;
    low as u8
}

/// Accepts a transmission whose last byte is the checksum of the first four,
/// and rejects any other with both the checksum that was sent and the one
/// that was calculated.
pub fn verify_checksum<HE>(bytes: &[u8; 5]) -> (verdict: Result<(), DhtError<HE>>)
    ensures
        verdict is Ok <==> checksum_holds(bytes@),
        verdict is Err ==> verdict == Err::<(), DhtError<HE>>(
            DhtError::ChecksumMismatch(bytes@[4], checksum(bytes@)),
        ),
{
    let expected: u8 = bytes[4];
    let calculated: u8 = calculate_checksum(bytes);
    if expected != calculated {
        return Err(DhtError::ChecksumMismatch(expected, calculated));
    }
    Ok(())
}

} // verus!
