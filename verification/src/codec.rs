//! The packed position of a voucher: three 64-bit indices inside one 256-bit integer.
//!
//! On the wire a position is 32 bytes, big-endian. Bytes 0 to 7 are reserved and never looked
//! at; bytes 8 to 15 hold the voucher index, bytes 16 to 23 the input index and bytes 24 to 31
//! the epoch index, each big-endian. As a number a position is therefore
//! `voucher * 2^128 + input * 2^64 + epoch`, plus whatever the reserved bytes hold.

use crate::word::{pow2_128, pow2_192, pow2_64, Uint256};
use vstd::prelude::*;

verus! {

/// The byte of `word` that has `8 * k` less significant bits below it.
pub open spec fn byte_of(word: u64, k: int) -> u8 {
    ((word >> ((8 * k) as u64)) & 0xff) as u8
}

/// The 32 bytes of a 256-bit integer, most significant first.
pub open spec fn big_endian_bytes(word: Uint256) -> Seq<u8> {
    Seq::new(32, |k: int| byte_of(word.limbs[3 - k / 8], 7 - k % 8))
}

/// The 64-bit number that the eight bytes from `at` on spell, most significant first.
pub open spec fn be_u64(bytes: Seq<u8>, at: int) -> int {
    bytes[at] * 0x100_0000_0000_0000 + bytes[at + 1] * 0x1_0000_0000_0000 + bytes[at + 2]
        * 0x100_0000_0000 + bytes[at + 3] * 0x1_0000_0000 + bytes[at + 4] * 0x100_0000 + bytes[at
        + 5] * 0x1_0000 + bytes[at + 6] * 0x100 + bytes[at + 7]
}

/// The three indices that a position holds: voucher, input, epoch.
pub open spec fn position_indices(position: Uint256) -> (u64, u64, u64) {
    (position.limbs[2], position.limbs[1], position.limbs[0])
}

/// The position that holds the three indices, with the reserved part zero.
pub open spec fn packed_position(voucher: u64, input: u64, epoch: u64) -> Uint256 {
    Uint256 { limbs: [epoch, input, voucher, 0] }
}

/// `U256::to_big_endian`: writes the integer's 32 bytes, most significant first, into the
/// buffer handed to it, which here is exactly 32 bytes long.
#[verifier::external_body]
fn to_big_endian(word: &Uint256) -> (bytes: [u8; 32])
    ensures
        bytes@ == big_endian_bytes(*word),
{
    let mut bytes = [0u8; 32];
    ethers_core::types::U256(word.limbs).to_big_endian(&mut bytes);
    bytes
}

/// A 64-bit word is what its eight bytes spell.
proof fn lemma_word_of_bytes(word: u64)
    ensures
        word == byte_of(word, 7) * 0x100_0000_0000_0000 + byte_of(word, 6) * 0x1_0000_0000_0000
            + byte_of(word, 5) * 0x100_0000_0000 + byte_of(word, 4) * 0x1_0000_0000 + byte_of(
            word,
            3,
        ) * 0x100_0000 + byte_of(word, 2) * 0x1_0000 + byte_of(word, 1) * 0x100 + byte_of(word, 0),
{
    assert(word == (((word >> 56) & 0xff) as u8) * 0x100_0000_0000_0000 + (((word >> 48)
        & 0xff) as u8) * 0x1_0000_0000_0000 + (((word >> 40) & 0xff) as u8) * 0x100_0000_0000 + (((
    word >> 32) & 0xff) as u8) * 0x1_0000_0000 + (((word >> 24) & 0xff) as u8) * 0x100_0000 + (((
    word >> 16) & 0xff) as u8) * 0x1_0000 + (((word >> 8) & 0xff) as u8) * 0x100 + (((word >> 0)
        & 0xff) as u8)) by (bit_vector);
}

/// Reads the 64-bit big-endian number that starts at byte `at`.
fn read_be_u64(bytes: &[u8; 32], at: usize) -> (out: u64)
    requires
        at + 8 <= 32,
    ensures
        out == be_u64(bytes@, at as int),
{
    let b0: u64 = bytes[at] as u64;
    let b1: u64 = bytes[at + 1] as u64;
    let b2: u64 = bytes[at + 2] as u64;
    let b3: u64 = bytes[at + 3] as u64;
    let b4: u64 = bytes[at + 4] as u64;
    let b5: u64 = bytes[at + 5] as u64;
    let b6: u64 = bytes[at + 6] as u64;
    let b7: u64 = bytes[at + 7] as u64;
    b0 * 0x100_0000_0000_0000 + b1 * 0x1_0000_0000_0000 + b2 * 0x100_0000_0000 + b3
        * 0x1_0000_0000 + b4 * 0x100_0000 + b5 * 0x1_0000 + b6 * 0x100 + b7
}

/// Reads the three indices out of the 32 bytes of a position. The reserved bytes are not
/// looked at.
pub fn decode_bytes(bytes: &[u8; 32]) -> (out: (u64, u64, u64))
    ensures
        out.0 == be_u64(bytes@, 8),
        out.1 == be_u64(bytes@, 16),
        out.2 == be_u64(bytes@, 24),
{
    (read_be_u64(bytes, 8), read_be_u64(bytes, 16), read_be_u64(bytes, 24))
}

/// Splits a packed position into its voucher, input and epoch index.
pub fn decode(position: &Uint256) -> (out: (u64, u64, u64))
    ensures
        out == position_indices(*position),
        position.value() == position.limbs[3] * pow2_192() + out.0 * pow2_128() + out.1
            * pow2_64() + out.2,
{
    let bytes = to_big_endian(position);
    proof {
        lemma_word_of_bytes(position.limbs[2]);
        lemma_word_of_bytes(position.limbs[1]);
        lemma_word_of_bytes(position.limbs[0]);
    }
    decode_bytes(&bytes)
}

/// Packs three indices into a position whose reserved part is zero.
pub fn encode(voucher: u64, input: u64, epoch: u64) -> (out: Uint256)
    ensures
        out == packed_position(voucher, input, epoch),
        out.value() == voucher * pow2_128() + input * pow2_64() + epoch,
{
    Uint256 { limbs: [epoch, input, voucher, 0] }
}

/// Decoding what was encoded gives the three indices back.
pub proof fn lemma_decode_encode(voucher: u64, input: u64, epoch: u64)
    ensures
        position_indices(packed_position(voucher, input, epoch)) == (voucher, input, epoch),
{
}

/// Encoding what was decoded gives the position back, but for its reserved part, which comes
/// back as zero.
pub proof fn lemma_encode_decode(position: Uint256)
    ensures
        ({
            let (voucher, input, epoch) = position_indices(position);
            packed_position(voucher, input, epoch).limbs@ == position.limbs@.update(3, 0)
        }),
{
}

} // verus!
