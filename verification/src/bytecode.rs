//! The initcode of the contracts that were built, by name.

use crate::hash::append_bytes;
use crate::text::same_text;
use vstd::prelude::*;

verus! {

/// The initcode of a contract that was built.
#[derive(Debug)]
pub struct ContractCode {
    /// Name of the contract.
    pub name: String,
    /// Its initcode.
    pub initcode: Vec<u8>,
}

/// The place of the first of `codes` at or after `from` that is named
/// `name`; the number of codes where there is none.
pub open spec fn code_position(codes: Seq<ContractCode>, name: Seq<char>, from: int) -> int
    decreases codes.len() - from,
{
    if from < 0 || from >= codes.len() {
        codes.len() as int
    } else if codes[from].name@ == name {
        from
    } else {
        code_position(codes, name, from + 1)
    }
}

/// The initcode of the contract named `name` among `codes`; empty where no
/// contract bears the name.
pub open spec fn bytecode_of(codes: Seq<ContractCode>, name: Seq<char>) -> Seq<u8> {
    let at = code_position(codes, name, 0);
    if at < codes.len() {
        codes[at].initcode@
    } else {
        Seq::empty()
    }
}

/// Gives the initcode of the contract named `contract_name`.
pub fn get_bytecode(codes: &Vec<ContractCode>, contract_name: &str) -> (initcode: Vec<u8>)
    ensures
        initcode@ == bytecode_of(codes@, contract_name@),
{
    let mut initcode: Vec<u8> = Vec::new();
    let mut i: usize = 0;
    while i < codes.len()
        invariant
            i <= codes.len(),
            initcode@.len() == 0,
            code_position(codes@, contract_name@, 0) == code_position(
                codes@,
                contract_name@,
                i as int,
            ),
        decreases codes.len() - i,
    {
        if same_text(codes[i].name.as_str(), contract_name) {
            append_bytes(&mut initcode, codes[i].initcode.as_slice());
            assert(initcode@ =~= codes@[i as int].initcode@);
            return initcode;
        }
        i += 1;
    }
    initcode
}

} // verus!
