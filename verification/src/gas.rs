//! Gas prices of the host services, and the rule for charging them.

use vstd::prelude::*;

verus! {

/// Loading a storage slot that the transaction has not touched yet.
pub const SLOAD_COLD: u64 = 2100;

/// Loading a storage slot that the transaction has touched before.
pub const SLOAD_WARM: u64 = 100;

/// Storing to a storage slot that the transaction has not touched yet.
pub const SSTORE_COLD: u64 = 2200;

/// Storing to a storage slot that the transaction has touched before.
pub const SSTORE_WARM: u64 = 100;

/// Calling an account that is empty.
pub const CALL_EMPTY_ACCOUNT: u64 = 25000;

/// Calling an account that the transaction has not touched yet.
pub const CALL_NEW_ACCOUNT: u64 = 2600;

/// Calling with a value to transfer.
pub const CALL_VALUE: u64 = 9000;

/// Calling at all.
pub const CALL_BASE: u64 = 100;

/// `revm::interpreter::Gas`: the gas account of a frame.
#[verifier::external_type_specification]
#[verifier::external_body]
pub struct ExGas(revm::interpreter::Gas);

/// The gas that `gas` has left.
pub uninterp spec fn gas_remaining(gas: revm::interpreter::Gas) -> u64;

/// The gas that `gas` started with.
pub uninterp spec fn gas_limit(gas: revm::interpreter::Gas) -> u64;

/// The refund that `gas` has on record.
pub uninterp spec fn gas_refunded(gas: revm::interpreter::Gas) -> i64;

/// `Gas::record_cost`: takes `cost` off the remaining gas and says `true`
/// where that much is left; else says `false` and changes nothing. The limit
/// and the refund stay as they are either way.
#[verifier::external_body]
fn record_cost(gas: &mut revm::interpreter::Gas, cost: u64) -> (charged: bool)
    ensures
        charged == (cost <= gas_remaining(*old(gas))),
        charged ==> gas_remaining(*final(gas)) == gas_remaining(*old(gas)) - cost,
        !charged ==> *final(gas) == *old(gas),
        gas_limit(*final(gas)) == gas_limit(*old(gas)),
        gas_refunded(*final(gas)) == gas_refunded(*old(gas)),
{
    gas.record_cost(cost)
}

/// Why a frame ended.
#[derive(Clone, Copy, Debug, PartialEq, Eq, Structural)]
pub enum InstructionResult {
    /// The guest returned.
    Return,
    /// The guest reverted.
    Revert,
    /// A charge exceeded the gas that was left.
    OutOfGas,
}

/// How a frame ended: the reason, the output, and the gas at that point.
#[derive(Debug)]
pub struct InterpreterResult {
    /// Why the frame ended.
    pub result: InstructionResult,
    /// What the frame hands to its caller.
    pub output: Vec<u8>,
    /// The gas when the frame ended.
    pub gas: revm::interpreter::Gas,
}

/// Charges `cost` for a host service. Where less than `cost` is left, nothing
/// is charged and the frame ends out of gas with empty output: the result to
/// return is handed out. Else `cost` is taken off the remaining gas and the
/// service may go on.
pub fn syscall_gas(gas: &mut revm::interpreter::Gas, cost: u64) -> (halt: Option<
    InterpreterResult,
>)
    ensures
        cost <= gas_remaining(*old(gas)) ==> halt is None && gas_remaining(*final(gas))
            == gas_remaining(*old(gas)) - cost,
        cost > gas_remaining(*old(gas)) ==> *final(gas) == *old(gas) && (halt matches Some(end)
            && end.result == InstructionResult::OutOfGas && end.output@.len() == 0 && end.gas
            == *old(gas)),
        gas_limit(*final(gas)) == gas_limit(*old(gas)),
        gas_refunded(*final(gas)) == gas_refunded(*old(gas)),
{
    if !record_cost(gas, cost) {
        return Some(
            InterpreterResult { result: InstructionResult::OutOfGas, output: Vec::new(), gas: *gas },
        );
    }
    None
}

} // verus!
