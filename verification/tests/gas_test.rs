use r55::gas::{
    syscall_gas, InstructionResult, CALL_BASE, CALL_EMPTY_ACCOUNT, CALL_NEW_ACCOUNT, CALL_VALUE,
    SLOAD_COLD, SLOAD_WARM, SSTORE_COLD, SSTORE_WARM,
};
use revm::interpreter::Gas;

#[test]
fn gas_prices() {
    assert_eq!(SLOAD_COLD, 2100);
    assert_eq!(SLOAD_WARM, 100);
    assert_eq!(SSTORE_COLD, 2200);
    assert_eq!(SSTORE_WARM, 100);
    assert_eq!(CALL_EMPTY_ACCOUNT, 25000);
    assert_eq!(CALL_NEW_ACCOUNT, 2600);
    assert_eq!(CALL_VALUE, 9000);
    assert_eq!(CALL_BASE, 100);
}

#[test]
fn a_charge_within_the_budget_is_taken() {
    let mut gas = Gas::new(5000);
    assert!(syscall_gas(&mut gas, SLOAD_COLD).is_none());
    assert_eq!(gas.remaining(), 2900);
    assert_eq!(gas.spent(), 2100);
    assert_eq!(gas.limit(), 5000);
}

#[test]
fn a_charge_of_all_that_is_left_is_taken() {
    let mut gas = Gas::new(100);
    assert!(syscall_gas(&mut gas, SLOAD_WARM).is_none());
    assert_eq!(gas.remaining(), 0);
}

#[test]
fn a_charge_beyond_the_budget_ends_the_frame() {
    let mut gas = Gas::new(2099);
    let end = syscall_gas(&mut gas, SLOAD_COLD).unwrap();
    assert_eq!(end.result, InstructionResult::OutOfGas);
    assert!(end.output.is_empty());
    assert_eq!(end.gas, Gas::new(2099));
    assert_eq!(gas.remaining(), 2099);
    assert_eq!(gas.limit(), 2099);
}

#[test]
fn charges_add_up() {
    let mut gas = Gas::new(CALL_BASE + CALL_VALUE + 50);
    assert!(syscall_gas(&mut gas, CALL_BASE).is_none());
    assert!(syscall_gas(&mut gas, CALL_VALUE).is_none());
    assert_eq!(gas.remaining(), 50);
    assert!(syscall_gas(&mut gas, CALL_NEW_ACCOUNT).is_some());
    assert_eq!(gas.remaining(), 50);
    assert!(syscall_gas(&mut gas, 0).is_none());
}
