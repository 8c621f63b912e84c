//! Deploying a contract: the initcode that is handed to the host, and the
//! address that the host hands back.

use crate::hash::append_bytes;
use crate::word::{byte_at, byte_of, u64_be_bytes, Address};
use vstd::prelude::*;

verus! {

/// The byte that marks code for the RISC-V interpreter.
pub const R55_TAG: u8 = 0xff;

/// The four bytes of `n`, most significant first.
pub open spec fn be32(n: u32) -> Seq<u8> {
    seq![byte_of(n as u64, 3), byte_of(n as u64, 2), byte_of(n as u64, 1), byte_of(n as u64, 0)]
}

/// The initcode of a contract: the tag, the size of the runtime code in four
/// bytes, the runtime code, and the encoded arguments of the constructor.
pub open spec fn initcode_of(bytecode: Seq<u8>, encoded_args: Seq<u8>) -> Seq<u8> {
    seq![R55_TAG] + be32(bytecode.len() as u32) + bytecode + encoded_args
}

/// Packs the initcode of a contract from its runtime code and the encoded
/// arguments of its constructor.
pub fn initcode(bytecode: &[u8], encoded_args: &[u8]) -> (init_code: Vec<u8>)
    requires
        bytecode@.len() <= u32::MAX,
    ensures
        init_code@ == initcode_of(bytecode@, encoded_args@),
        init_code@[0] == R55_TAG,
{
    let codesize = bytecode.len() as u64;
    let mut init_code: Vec<u8> = Vec::new();
    init_code.push(R55_TAG);
    init_code.push(byte_at(codesize, 3));
    init_code.push(byte_at(codesize, 2));
    init_code.push(byte_at(codesize, 1));
    init_code.push(byte_at(codesize, 0));
    assert(init_code@ =~= seq![R55_TAG] + be32(bytecode@.len() as u32));
    append_bytes(&mut init_code, bytecode);
    append_bytes(&mut init_code, encoded_args);
    init_code
}

/// A blob of code with the tag in front.
pub open spec fn tagged(code: Seq<u8>) -> Seq<u8> {
    seq![R55_TAG] + code
}

/// Puts the tag in front of `code`.
pub fn tag(code: &[u8]) -> (blob: Vec<u8>)
    ensures
        blob@ == tagged(code@),
        blob@[0] == R55_TAG,
{
    let mut blob: Vec<u8> = Vec::new();
    blob.push(R55_TAG);
    append_bytes(&mut blob, code);
    blob
}

/// The address that the host hands back in three registers after a
/// deployment: the eight bytes of the first, the eight bytes of the second
/// and the upper four bytes of the third.
pub open spec fn created_address(first: u64, second: u64, third: u64) -> Seq<u8> {
    u64_be_bytes(first) + u64_be_bytes(second) + u64_be_bytes(third).take(4)
}

/// Reads the address of the deployed contract off the three registers that
/// the host hands back.
pub fn create(first: u64, second: u64, third: u64) -> (address: Address)
    ensures
        address.bytes@ == created_address(first, second, third),
{
    let bytes = [
        byte_at(first, 7),
        byte_at(first, 6),
        byte_at(first, 5),
        byte_at(first, 4),
        byte_at(first, 3),
        byte_at(first, 2),
        byte_at(first, 1),
        byte_at(first, 0),
        byte_at(second, 7),
        byte_at(second, 6),
        byte_at(second, 5),
        byte_at(second, 4),
        byte_at(second, 3),
        byte_at(second, 2),
        byte_at(second, 1),
        byte_at(second, 0),
        byte_at(third, 7),
        byte_at(third, 6),
        byte_at(third, 5),
        byte_at(third, 4),
    ];
    assert(bytes@ =~= created_address(first, second, third));
    Address { bytes }
}

} // verus!
