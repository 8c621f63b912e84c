//! 256-bit words and account addresses.

use vstd::prelude::*;

verus! {

/// The byte of `x` that is `k` bytes above its least significant one.
pub open spec fn byte_of(x: u64, k: u64) -> u8 {
    ((x >> ((8 * k) as u64)) & 0xff) as u8
}

/// The eight bytes of `x`, most significant first.
pub open spec fn u64_be_bytes(x: u64) -> Seq<u8> {
    seq![
        byte_of(x, 7),
        byte_of(x, 6),
        byte_of(x, 5),
        byte_of(x, 4),
        byte_of(x, 3),
        byte_of(x, 2),
        byte_of(x, 1),
        byte_of(x, 0),
    ]
}

/// The number that eight bytes spell, most significant first.
pub open spec fn u64_from_be(b: Seq<u8>) -> u64 {
    (b[0] as u64) << 56 | (b[1] as u64) << 48 | (b[2] as u64) << 40 | (b[3] as u64) << 32 | (
    b[4] as u64) << 24 | (b[5] as u64) << 16 | (b[6] as u64) << 8 | (b[7] as u64)
}

/// Takes the byte of `x` that is `k` bytes above its least significant one.
pub fn byte_at(x: u64, k: u64) -> (byte: u8)
    requires
        k < 8,
    ensures
        byte == byte_of(x, k),
{
    ((x >> (8 * k)) & 0xff) as u8
}

/// Spells the number that eight bytes give, most significant first.
pub fn u64_of_be(b: &[u8; 8]) -> (x: u64)
    ensures
        x == u64_from_be(b@),
        u64_be_bytes(x) == b@,
{
    let x = (b[0] as u64) << 56 | (b[1] as u64) << 48 | (b[2] as u64) << 40 | (b[3] as u64) << 32
        | (b[4] as u64) << 24 | (b[5] as u64) << 16 | (b[6] as u64) << 8 | (b[7] as u64);
    proof {
        lemma_be_round_trip(b[0], b[1], b[2], b[3], b[4], b[5], b[6], b[7]);
        assert(u64_be_bytes(x) =~= b@);
    }
    x
}

/// Eight bytes put together and taken apart again are the same eight bytes.
pub proof fn lemma_be_round_trip(b0: u8, b1: u8, b2: u8, b3: u8, b4: u8, b5: u8, b6: u8, b7: u8)
    ensures
        u64_be_bytes(u64_from_be(seq![b0, b1, b2, b3, b4, b5, b6, b7])) == seq![
            b0,
            b1,
            b2,
            b3,
            b4,
            b5,
            b6,
            b7,
        ],
{
    let x = (b0 as u64) << 56 | (b1 as u64) << 48 | (b2 as u64) << 40 | (b3 as u64) << 32 | (
    b4 as u64) << 24 | (b5 as u64) << 16 | (b6 as u64) << 8 | (b7 as u64);
    assert(((x >> 56) & 0xff) as u8 == b0 && ((x >> 48) & 0xff) as u8 == b1 && ((x >> 40) & 0xff) as u8
        == b2 && ((x >> 32) & 0xff) as u8 == b3 && ((x >> 24) & 0xff) as u8 == b4 && ((x >> 16)
        & 0xff) as u8 == b5 && ((x >> 8) & 0xff) as u8 == b6 && ((x >> 0) & 0xff) as u8 == b7)
        by (bit_vector)
        requires
            x == (b0 as u64) << 56 | (b1 as u64) << 48 | (b2 as u64) << 40 | (b3 as u64) << 32 | (
            b4 as u64) << 24 | (b5 as u64) << 16 | (b6 as u64) << 8 | (b7 as u64),
    ;
    assert(u64_be_bytes(x) =~= seq![b0, b1, b2, b3, b4, b5, b6, b7]);
}

/// A 256-bit unsigned integer, held as four 64-bit limbs.
#[derive(Clone, Copy, Debug, PartialEq, Eq, Structural)]
pub struct U256 {
    /// Bits 0 to 63.
    pub low: u64,
    /// Bits 64 to 127.
    pub mid_low: u64,
    /// Bits 128 to 191.
    pub mid_high: u64,
    /// Bits 192 to 255.
    pub high: u64,
}

impl U256 {
    /// The number zero.
    pub open spec fn spec_zero() -> U256 {
        U256 { low: 0, mid_low: 0, mid_high: 0, high: 0 }
    }

    /// The integer that the limbs spell.
    pub open spec fn value(self) -> nat {
        (self.low + self.mid_low * 0x1_0000_0000_0000_0000 + self.mid_high
            * 0x1_0000_0000_0000_0000_0000_0000_0000_0000 + self.high
            * 0x1_0000_0000_0000_0000_0000_0000_0000_0000_0000_0000_0000_0000) as nat
    }

    /// The 32 bytes of the number, most significant first.
    pub open spec fn be_bytes(self) -> Seq<u8> {
        u64_be_bytes(self.high) + u64_be_bytes(self.mid_high) + u64_be_bytes(self.mid_low)
            + u64_be_bytes(self.low)
    }

    /// The number that 32 bytes spell, most significant first.
    pub open spec fn spec_from_be_bytes(bytes: Seq<u8>) -> U256 {
        U256 {
            low: u64_from_be(bytes.subrange(24, 32)),
            mid_low: u64_from_be(bytes.subrange(16, 24)),
            mid_high: u64_from_be(bytes.subrange(8, 16)),
            high: u64_from_be(bytes.subrange(0, 8)),
        }
    }

    /// The number zero.
    #[verifier::when_used_as_spec(spec_zero)]
    pub fn zero() -> (word: U256)
        ensures
            word == U256::spec_zero(),
    {
        U256 { low: 0, mid_low: 0, mid_high: 0, high: 0 }
    }

    /// The number with the given limbs, least significant first.
    pub fn from_limbs(limbs: [u64; 4]) -> (word: U256)
        ensures
            word == (U256 { low: limbs[0], mid_low: limbs[1], mid_high: limbs[2], high: limbs[3] }),
    {
        U256 { low: limbs[0], mid_low: limbs[1], mid_high: limbs[2], high: limbs[3] }
    }

    /// The limbs of the number, least significant first.
    pub fn as_limbs(&self) -> (limbs: [u64; 4])
        ensures
            limbs@ == seq![self.low, self.mid_low, self.mid_high, self.high],
    {
        let limbs = [self.low, self.mid_low, self.mid_high, self.high];
        assert(limbs@ =~= seq![self.low, self.mid_low, self.mid_high, self.high]);
        limbs
    }

    /// The number `x`.
    pub fn from_u64(x: u64) -> (word: U256)
        ensures
            word == (U256 { low: x, mid_low: 0, mid_high: 0, high: 0 }),
            word.value() == x,
    {
        U256 { low: x, mid_low: 0, mid_high: 0, high: 0 }
    }

    /// Writes the number as 32 bytes, most significant first.
    pub fn to_be_bytes(&self) -> (bytes: [u8; 32])
        ensures
            bytes@ == self.be_bytes(),
    {
        let bytes = [
            byte_at(self.high, 7),
            byte_at(self.high, 6),
            byte_at(self.high, 5),
            byte_at(self.high, 4),
            byte_at(self.high, 3),
            byte_at(self.high, 2),
            byte_at(self.high, 1),
            byte_at(self.high, 0),
            byte_at(self.mid_high, 7),
            byte_at(self.mid_high, 6),
            byte_at(self.mid_high, 5),
            byte_at(self.mid_high, 4),
            byte_at(self.mid_high, 3),
            byte_at(self.mid_high, 2),
            byte_at(self.mid_high, 1),
            byte_at(self.mid_high, 0),
            byte_at(self.mid_low, 7),
            byte_at(self.mid_low, 6),
            byte_at(self.mid_low, 5),
            byte_at(self.mid_low, 4),
            byte_at(self.mid_low, 3),
            byte_at(self.mid_low, 2),
            byte_at(self.mid_low, 1),
            byte_at(self.mid_low, 0),
            byte_at(self.low, 7),
            byte_at(self.low, 6),
            byte_at(self.low, 5),
            byte_at(self.low, 4),
            byte_at(self.low, 3),
            byte_at(self.low, 2),
            byte_at(self.low, 1),
            byte_at(self.low, 0),
        ];
        assert(bytes@ =~= self.be_bytes());
        bytes
    }

    /// Reads a number off 32 bytes, most significant first.
    pub fn from_be_bytes(bytes: &[u8; 32]) -> (word: U256)
        ensures
            word == U256::spec_from_be_bytes(bytes@),
            word.be_bytes() == bytes@,
    {
        let high_bytes = [bytes[0], bytes[1], bytes[2], bytes[3], bytes[4], bytes[5], bytes[6], bytes[7]];
        let mid_high_bytes = [
            bytes[8],
            bytes[9],
            bytes[10],
            bytes[11],
            bytes[12],
            bytes[13],
            bytes[14],
            bytes[15],
        ];
        let mid_low_bytes = [
            bytes[16],
            bytes[17],
            bytes[18],
            bytes[19],
            bytes[20],
            bytes[21],
            bytes[22],
            bytes[23],
        ];
        let low_bytes = [
            bytes[24],
            bytes[25],
            bytes[26],
            bytes[27],
            bytes[28],
            bytes[29],
            bytes[30],
            bytes[31],
        ];
        proof {
            assert(high_bytes@ =~= bytes@.subrange(0, 8));
            assert(mid_high_bytes@ =~= bytes@.subrange(8, 16));
            assert(mid_low_bytes@ =~= bytes@.subrange(16, 24));
            assert(low_bytes@ =~= bytes@.subrange(24, 32));
        }
        let word = U256 {
            low: u64_of_be(&low_bytes),
            mid_low: u64_of_be(&mid_low_bytes),
            mid_high: u64_of_be(&mid_high_bytes),
            high: u64_of_be(&high_bytes),
        };
        assert(word.be_bytes() =~= bytes@);
        word
    }
}

/// Writing a number as bytes and reading it back gives the number.
pub proof fn lemma_be_bytes_round_trip(word: U256)
    ensures
        U256::spec_from_be_bytes(word.be_bytes()) == word,
{
    lemma_limb_round_trip(word.low);
    lemma_limb_round_trip(word.mid_low);
    lemma_limb_round_trip(word.mid_high);
    lemma_limb_round_trip(word.high);
    let bytes = word.be_bytes();
    assert(bytes.subrange(0, 8) =~= u64_be_bytes(word.high));
    assert(bytes.subrange(8, 16) =~= u64_be_bytes(word.mid_high));
    assert(bytes.subrange(16, 24) =~= u64_be_bytes(word.mid_low));
    assert(bytes.subrange(24, 32) =~= u64_be_bytes(word.low));
}

/// A limb taken apart into bytes and put together again is the same limb.
pub proof fn lemma_limb_round_trip(x: u64)
    ensures
        u64_from_be(u64_be_bytes(x)) == x,
{
    assert((((x >> 56) & 0xff) as u8 as u64) << 56 | (((x >> 48) & 0xff) as u8 as u64) << 48 | (((x
        >> 40) & 0xff) as u8 as u64) << 40 | (((x >> 32) & 0xff) as u8 as u64) << 32 | (((x >> 24)
        & 0xff) as u8 as u64) << 24 | (((x >> 16) & 0xff) as u8 as u64) << 16 | (((x >> 8)
        & 0xff) as u8 as u64) << 8 | (((x >> 0) & 0xff) as u8 as u64) == x) by (bit_vector);
}

/// The address of an account: twenty bytes.
#[derive(Clone, Copy, Debug, PartialEq, Eq)]
pub struct Address {
    /// The bytes of the address.
    pub bytes: [u8; 20],
}

} // verus!
