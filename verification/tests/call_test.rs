use r55::call::{
    call, dispatch, return_data_copy, return_data_size, staticcall, CallCtx, MutableCallCtx,
    MutableCtx, ReturnDataCopy, StaticCallCtx, StaticCtx,
};
use r55::word::Address;

fn reads<C: StaticCallCtx>(_ctx: &C) -> bool {
    true
}

fn writes<C: MutableCallCtx>(_ctx: &C) -> bool {
    true
}

fn any<C: CallCtx>(_ctx: &C) -> bool {
    true
}

#[test]
fn contexts_carry_their_capability() {
    assert!(reads(&StaticCtx));
    assert!(writes(&MutableCtx));
    assert!(any(&StaticCtx));
    assert!(any(&MutableCtx));
}

#[test]
fn call_registers_hold_the_address_as_limbs() {
    let mut bytes = [0u8; 20];
    for (i, b) in bytes.iter_mut().enumerate() {
        *b = i as u8 + 1;
    }
    let registers = call(&Address { bytes }, 7, 0x1000, 36);
    let word: alloy_core::primitives::U256 =
        alloy_core::primitives::Address::from(bytes).into_word().into();
    let limbs = word.as_limbs();
    assert_eq!(registers, [limbs[0], limbs[1], limbs[2], 7, 0x1000, 36]);
    assert_eq!(registers[0], 0x0d0e_0f10_1112_1314);
    assert_eq!(registers[1], 0x0506_0708_090a_0b0c);
    assert_eq!(registers[2], 0x0102_0304);
}

#[test]
fn staticcall_registers_are_those_of_a_call() {
    let address = Address { bytes: [0x11; 20] };
    assert_eq!(staticcall(&address, 0, 64, 4), call(&address, 0, 64, 4));
}

#[test]
fn no_return_data_needs_no_copy() {
    assert_eq!(return_data_copy(0), Vec::new());
}

#[test]
fn return_data_is_copied_32_bytes_at_a_time() {
    assert_eq!(
        return_data_copy(64),
        vec![
            ReturnDataCopy { dest_offset: 0, res_offset: 0, res_size: 32 },
            ReturnDataCopy { dest_offset: 32, res_offset: 32, res_size: 32 },
        ]
    );
}

#[test]
fn the_rest_of_the_return_data_is_copied_too() {
    assert_eq!(
        return_data_copy(70),
        vec![
            ReturnDataCopy { dest_offset: 0, res_offset: 0, res_size: 32 },
            ReturnDataCopy { dest_offset: 32, res_offset: 32, res_size: 32 },
            ReturnDataCopy { dest_offset: 64, res_offset: 64, res_size: 6 },
        ]
    );
    assert_eq!(
        return_data_copy(5),
        vec![ReturnDataCopy { dest_offset: 0, res_offset: 0, res_size: 5 }]
    );
}

#[test]
fn the_copies_cover_every_byte_once() {
    for size in [1u64, 31, 32, 33, 95, 96, 97, 1000] {
        let plan = return_data_copy(size);
        let mut next = 0;
        for copy in &plan {
            assert_eq!(copy.res_offset, next);
            assert_eq!(copy.dest_offset, next);
            assert!(copy.res_size >= 1 && copy.res_size <= 32);
            next += copy.res_size;
        }
        assert_eq!(next, size);
    }
}

#[test]
fn return_data_size_prefers_what_was_declared() {
    assert_eq!(return_data_size(Some(32), 64), 32);
    assert_eq!(return_data_size(Some(0), 64), 0);
    assert_eq!(return_data_size(None, 64), 64);
}

#[test]
fn dispatch_finds_the_handler() {
    let table = vec![[0xa9, 0x05, 0x9c, 0xbb], [0x70, 0xa0, 0x82, 0x31]];
    assert_eq!(dispatch(&table, &[0x70, 0xa0, 0x82, 0x31, 0, 0, 1]), Ok(1));
    assert_eq!(dispatch(&table, &[0xa9, 0x05, 0x9c, 0xbb]), Ok(0));
}

#[test]
fn dispatch_takes_the_first_of_equal_selectors() {
    let table = vec![[1, 2, 3, 4], [1, 2, 3, 4]];
    assert_eq!(dispatch(&table, &[1, 2, 3, 4, 5]), Ok(0));
}

#[test]
fn a_selector_miss_reverts_with_empty_output() {
    let table = vec![[0xa9, 0x05, 0x9c, 0xbb], [0x70, 0xa0, 0x82, 0x31]];
    assert_eq!(dispatch(&table, &[0xde, 0xad, 0xbe, 0xef, 1, 2]), Err(Vec::new()));
    assert_eq!(dispatch(&table, &[0xa9, 0x05, 0x9c]), Err(Vec::new()));
    assert_eq!(dispatch(&table, &[]), Err(Vec::new()));
    assert_eq!(dispatch(&Vec::new(), &[1, 2, 3, 4]), Err(Vec::new()));
}
