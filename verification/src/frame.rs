//! The end of a sub-call, as the calling frame sees it.

use crate::gas::InstructionResult;
use crate::storage::{Storage, StorageView};
use crate::word::U256;
use vstd::prelude::*;

verus! {

/// The writes of the calling frame after a sub-call that started at the
/// checkpoint `mark` has ended: all of them where the sub-call returned,
/// those before the checkpoint where it did not.
pub open spec fn writes_after_subcall(
    writes: Seq<(U256, U256)>,
    mark: int,
    result: InstructionResult,
) -> Seq<(U256, U256)> {
    if result == InstructionResult::Return {
        writes
    } else {
        writes.take(mark)
    }
}

/// Ends a sub-call that started at the checkpoint `mark`. The return buffer
/// of the calling frame takes the output of the sub-call, whatever its
/// result. The writes of a sub-call that returned stay; those of one that did
/// not are forgotten.
pub fn end_subcall(
    storage: &mut Storage,
    return_data: &mut Vec<u8>,
    mark: usize,
    result: InstructionResult,
    output: Vec<u8>,
)
    requires
        mark <= old(storage)@.writes.len(),
    ensures
        final(return_data)@ == output@,
        final(storage)@.writes == writes_after_subcall(old(storage)@.writes, mark as int, result),
        final(storage)@.trace == old(storage)@.trace,
{
    *return_data = output;
    match result {
        InstructionResult::Return => {},
        InstructionResult::Revert => {
            storage.revert_to(mark);
        },
        InstructionResult::OutOfGas => {
            storage.revert_to(mark);
        },
    }
}

/// A sub-call that does not return leaves every slot of the calling frame as
/// it was when the sub-call started, whatever the sub-call wrote.
pub proof fn lemma_failed_subcall_changes_nothing(
    before: StorageView,
    written: Seq<(U256, U256)>,
    result: InstructionResult,
    key: U256,
)
    requires
        result != InstructionResult::Return,
    ensures
        writes_after_subcall(before.writes + written, before.writes.len() as int, result)
            == before.writes,
        (StorageView {
            writes: writes_after_subcall(
                before.writes + written,
                before.writes.len() as int,
                result,
            ),
            trace: before.trace,
        }).value_at(key) == before.value_at(key),
{
    assert((before.writes + written).take(before.writes.len() as int) =~= before.writes);
}

} // verus!
