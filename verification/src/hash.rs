//! Keccak-256, and what is derived from it: function selectors and the
//! storage slots of mapping entries.

use crate::word::U256;
use vstd::prelude::*;
use vstd::string::StringSliceAdditionalSpecFns;

verus! {

/// The Keccak-256 digest of `data`: 32 bytes.
pub uninterp spec fn keccak256(data: Seq<u8>) -> Seq<u8>;

/// `alloy_core::primitives::keccak256`: the 32 bytes of the Keccak-256 digest
/// of `data`.
#[verifier::external_body]
pub(crate) fn keccak256_digest(data: &[u8]) -> (digest: [u8; 32])
    ensures
        digest@ == keccak256(data@),
{
    alloy_core::primitives::keccak256(data).0
}

/// Appends `tail` to `bytes`.
pub fn append_bytes(bytes: &mut Vec<u8>, tail: &[u8])
    ensures
        final(bytes)@ == old(bytes)@ + tail@,
{
    let mut i: usize = 0;
    while i < tail.len()
        invariant
            i <= tail.len(),
            bytes@ == old(bytes)@ + tail@.take(i as int),
        decreases tail.len() - i,
    {
        bytes.push(tail[i]);
        proof {
            assert(tail@.take(i + 1) == tail@.take(i as int).push(tail@[i as int]));
        }
        i += 1;
    }
    proof {
        assert(tail@.take(tail@.len() as int) == tail@);
    }
}

/// The selector that a digest gives: its first four bytes.
pub open spec fn selector_of(digest: Seq<u8>) -> Seq<u8> {
    digest.take(4)
}

/// Cuts the selector off the digest of a signature.
pub fn selector_from_digest(digest: &[u8; 32]) -> (selector: [u8; 4])
    ensures
        selector@ == selector_of(digest@),
{
    let selector = [digest[0], digest[1], digest[2], digest[3]];
    assert(selector@ =~= digest@.take(4));
    selector
}

/// The selector of the function or error with the canonical signature `sig`:
/// the first four bytes of the digest of its text.
pub fn get_selector_from_sig(sig: &str) -> (selector: [u8; 4])
    ensures
        keccak256(sig.spec_bytes()).len() == 32,
        selector@ == selector_of(keccak256(sig.spec_bytes())),
        forall|i: int| 0 <= i < 4 ==> selector@[i] == keccak256(sig.spec_bytes())[i],
{
    let digest = keccak256_digest(sig.as_bytes());
    selector_from_digest(&digest)
}

/// What is hashed for the entry under a key in the mapping `id`: the encoded
/// key, followed by the 32 bytes of `id`.
pub open spec fn slot_preimage(key_bytes: Seq<u8>, id: U256) -> Seq<u8> {
    key_bytes + id.be_bytes()
}

/// Puts together what is hashed for the entry under a key in the mapping `id`.
pub fn mapping_slot_preimage(key_bytes: &[u8], id: &U256) -> (preimage: Vec<u8>)
    ensures
        preimage@ == slot_preimage(key_bytes@, *id),
{
    let mut preimage: Vec<u8> = Vec::new();
    append_bytes(&mut preimage, key_bytes);
    let id_bytes = id.to_be_bytes();
    append_bytes(&mut preimage, id_bytes.as_slice());
    preimage
}

/// The storage slot of the entry under the encoded key `key_bytes` in the
/// mapping `id`: the digest of the key followed by `id`, read as a number.
pub fn get_mapping_slot(key_bytes: Vec<u8>, id: U256) -> (slot: U256)
    ensures
        keccak256(slot_preimage(key_bytes@, id)).len() == 32,
        slot.be_bytes() == keccak256(slot_preimage(key_bytes@, id)),
        slot == U256::spec_from_be_bytes(keccak256(slot_preimage(key_bytes@, id))),
{
    let preimage = mapping_slot_preimage(key_bytes.as_slice(), &id);
    let digest = keccak256_digest(preimage.as_slice());
    U256::from_be_bytes(&digest)
}

} // verus!
