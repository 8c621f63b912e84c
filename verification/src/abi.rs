//! The ABI encoding of the values that serve as mapping keys, and the way back.

use crate::word::{lemma_be_bytes_round_trip, Address, U256};
use vstd::prelude::*;

verus! {

/// Twelve zero bytes: what pads an address to a word.
pub open spec fn address_padding() -> Seq<u8> {
    Seq::new(12, |i: int| 0u8)
}

/// A value with an ABI encoding.
pub trait AbiEncode {
    /// The ABI encoding of the value.
    spec fn abi_encoded(&self) -> Seq<u8>;

    /// Encodes the value.
    fn abi_encode(&self) -> (encoded: Vec<u8>)
        ensures
            encoded@ == self.abi_encoded(),
    ;
}

/// `SolValue::abi_encode` on an `Address`: one word, the twenty bytes of the
/// address behind twelve zero bytes.
#[verifier::external_body]
fn abi_encode_address(bytes: &[u8; 20]) -> (encoded: Vec<u8>)
    ensures
        encoded@ == address_padding() + bytes@,
{
    alloy_sol_types::SolValue::abi_encode(&alloy_core::primitives::Address::from(*bytes))
}

/// `SolValue::abi_encode` on a `U256` made of the given limbs, least
/// significant first: one word, the 32 bytes of the number, most significant
/// first.
#[verifier::external_body]
fn abi_encode_u256(limbs: [u64; 4]) -> (encoded: Vec<u8>)
    ensures
        encoded@ == (U256 {
            low: limbs[0],
            mid_low: limbs[1],
            mid_high: limbs[2],
            high: limbs[3],
        }).be_bytes(),
{
    alloy_sol_types::SolValue::abi_encode(&alloy_core::primitives::U256::from_limbs(limbs))
}

impl AbiEncode for Address {
    open spec fn abi_encoded(&self) -> Seq<u8> {
        address_padding() + self.bytes@
    }

    fn abi_encode(&self) -> (encoded: Vec<u8>) {
        abi_encode_address(&self.bytes)
    }
}

impl AbiEncode for U256 {
    open spec fn abi_encoded(&self) -> Seq<u8> {
        self.be_bytes()
    }

    fn abi_encode(&self) -> (encoded: Vec<u8>) {
        let limbs = self.as_limbs();
        abi_encode_u256(limbs)
    }
}

/// A value that can be read back from its ABI encoding.
pub trait AbiDecode: AbiEncode + Sized {
    /// The value that `data` encodes; `None` where `data` is the encoding of
    /// no value.
    spec fn abi_decoded(data: Seq<u8>) -> Option<Self>;

    /// Encoding a value and decoding the result gives the value.
    proof fn lemma_round_trip(self)
        ensures
            Self::abi_decoded(self.abi_encoded()) == Some(self),
    ;

    /// Decodes `data`, which has to be the encoding of a value, no more and no less.
    fn abi_decode(data: &[u8]) -> (value: Option<Self>)
        ensures
            value == Self::abi_decoded(data@),
    ;
}

/// The address with the bytes `bytes`.
pub open spec fn address_of(bytes: Seq<u8>) -> Address {
    choose|address: Address| address.bytes@ == bytes
}

/// `SolValue::abi_decode` for an `Address`, with validation: succeeds on one
/// word whose first twelve bytes are zero, and gives its last twenty bytes.
#[verifier::external_body]
fn abi_decode_address(data: &[u8]) -> (bytes: Option<[u8; 20]>)
    ensures
        match bytes {
            Some(bytes) => data@ == address_padding() + bytes@,
            None => !(data@.len() == 32 && data@.subrange(0, 12) == address_padding()),
        },
{
    <alloy_core::primitives::Address as alloy_sol_types::SolValue>::abi_decode(data, true).ok().map(
        |address| address.0.0,
    )
}

/// `SolValue::abi_decode` for a `U256`, with validation: succeeds on one
/// word, and gives the limbs of the number that the word spells, least
/// significant first.
#[verifier::external_body]
fn abi_decode_u256(data: &[u8]) -> (limbs: Option<[u64; 4]>)
    ensures
        match limbs {
            Some(limbs) => data@.len() == 32 && (U256 {
                low: limbs[0],
                mid_low: limbs[1],
                mid_high: limbs[2],
                high: limbs[3],
            }) == U256::spec_from_be_bytes(data@),
            None => data@.len() != 32,
        },
{
    <alloy_core::primitives::U256 as alloy_sol_types::SolValue>::abi_decode(data, true).ok().map(
        |word| word.into_limbs(),
    )
}

impl AbiDecode for Address {
    open spec fn abi_decoded(data: Seq<u8>) -> Option<Address> {
        if data.len() == 32 && data.subrange(0, 12) == address_padding() {
            Some(address_of(data.subrange(12, 32)))
        } else {
            None
        }
    }

    proof fn lemma_round_trip(self) {
        let data = self.abi_encoded();
        assert(data.subrange(0, 12) =~= address_padding());
        assert(data.subrange(12, 32) =~= self.bytes@);
        lemma_address_of(self);
    }

    fn abi_decode(data: &[u8]) -> (value: Option<Address>) {
        match abi_decode_address(data) {
            Some(bytes) => {
                let address = Address { bytes };
                proof {
                    assert(data@.subrange(0, 12) =~= address_padding());
                    assert(data@.subrange(12, 32) =~= bytes@);
                    lemma_address_of(address);
                }
                Some(address)
            },
            None => None,
        }
    }
}

/// An address is the one address with its bytes.
pub proof fn lemma_address_of(address: Address)
    ensures
        address_of(address.bytes@) == address,
{
    let other = address_of(address.bytes@);
    assert(other.bytes@ == address.bytes@);
    assert(other.bytes == address.bytes) by {
        vstd::array::axiom_array_ext_equal(other.bytes, address.bytes);
        assert(other.bytes =~= address.bytes);
    }
}

impl AbiDecode for U256 {
    open spec fn abi_decoded(data: Seq<u8>) -> Option<U256> {
        if data.len() == 32 {
            Some(U256::spec_from_be_bytes(data))
        } else {
            None
        }
    }

    proof fn lemma_round_trip(self) {
        lemma_be_bytes_round_trip(self);
    }

    fn abi_decode(data: &[u8]) -> (value: Option<U256>) {
        match abi_decode_u256(data) {
            Some(limbs) => Some(U256::from_limbs(limbs)),
            None => None,
        }
    }
}

} // verus!
