//! Calls from one contract to another: the contexts that say what a caller
//! may do, the registers that a call is made with, the way the return data is
//! fetched, and the route from calldata to a handler.

use crate::word::{u64_from_be, u64_of_be, Address};
use vstd::prelude::*;

verus! {

/// A context in which a contract is called.
pub trait CallCtx {

}

/// A context that may read state and not change it.
pub trait StaticCallCtx: CallCtx {

}

/// A context that may change state.
pub trait MutableCallCtx: CallCtx {

}

/// The context of a caller that holds its own state only to read.
pub struct StaticCtx;

/// The context of a caller that holds its own state to change.
pub struct MutableCtx;

impl CallCtx for StaticCtx {

}

impl CallCtx for MutableCtx {

}

impl StaticCallCtx for StaticCtx {

}

impl MutableCallCtx for MutableCtx {

}

/// What a contract offers to the runtime: a way in for a transaction.
pub trait Contract {
    /// Handles the call whose data the host holds.
    fn call(&mut self);

    /// Handles the call with the given data.
    fn call_with_data(&mut self, calldata: &[u8]);
}

/// The three limbs that stand for `address` in registers: the address as a
/// number, its 64-bit limbs least significant first.
pub open spec fn address_limbs(address: Address) -> Seq<u64> {
    let b = address.bytes@;
    seq![
        u64_from_be(b.subrange(12, 20)),
        u64_from_be(b.subrange(4, 12)),
        u64_from_be(seq![0u8, 0u8, 0u8, 0u8] + b.subrange(0, 4)),
    ]
}

/// The argument registers of a call, first to sixth: the three limbs of the
/// callee's address, the value, and where the calldata starts and how long it is.
pub open spec fn call_registers(address: Address, value: u64, data_offset: u64, data_size: u64) -> Seq<u64> {
    address_limbs(address) + seq![value, data_offset, data_size]
}

/// Lays out the argument registers of a call.
pub fn call(addr: &Address, value: u64, data_offset: u64, data_size: u64) -> (registers: [u64; 6])
    ensures
        registers@ == call_registers(*addr, value, data_offset, data_size),
{
    let b = &addr.bytes;
    let low = [b[12], b[13], b[14], b[15], b[16], b[17], b[18], b[19]];
    let mid = [b[4], b[5], b[6], b[7], b[8], b[9], b[10], b[11]];
    let high = [0u8, 0u8, 0u8, 0u8, b[0], b[1], b[2], b[3]];
    proof {
        assert(low@ =~= b@.subrange(12, 20));
        assert(mid@ =~= b@.subrange(4, 12));
        assert(high@ =~= seq![0u8, 0u8, 0u8, 0u8] + b@.subrange(0, 4));
    }
    let registers = [u64_of_be(&low), u64_of_be(&mid), u64_of_be(&high), value, data_offset, data_size];
    assert(registers@ =~= call_registers(*addr, value, data_offset, data_size));
    registers
}

/// Lays out the argument registers of a call that may not change state: the
/// same registers as for any call.
pub fn staticcall(addr: &Address, value: u64, data_offset: u64, data_size: u64) -> (registers: [u64; 6])
    ensures
        registers@ == call_registers(*addr, value, data_offset, data_size),
{
    call(addr, value, data_offset, data_size)
}

/// One copy out of the return data: `res_size` bytes from `res_offset` on go
/// to the buffer at `dest_offset`.
#[derive(Clone, Copy, Debug, PartialEq, Eq, Structural)]
pub struct ReturnDataCopy {
    /// Where the bytes go, counted from the start of the buffer.
    pub dest_offset: u64,
    /// Where the bytes come from, counted from the start of the return data.
    pub res_offset: u64,
    /// How many bytes are copied.
    pub res_size: u64,
}

/// The number of copies that fetch `ret_size` bytes, 32 at a time.
pub open spec fn copy_count(ret_size: u64) -> int {
    (ret_size + 31) / 32
}

/// The `i`-th copy of those that fetch `ret_size` bytes: 32 bytes from
/// `32 * i` on, or what is left of `ret_size` where that is less.
pub open spec fn copy_at(ret_size: u64, i: int) -> ReturnDataCopy {
    let offset = (32 * i) as u64;
    let left = ret_size - 32 * i;
    ReturnDataCopy {
        dest_offset: offset,
        res_offset: offset,
        res_size: if left < 32 {
            left as u64
        } else {
            32
        },
    }
}

/// The copies that fetch `ret_size` bytes of return data, in their order:
/// together they cover each byte once, and none beyond `ret_size`.
pub open spec fn copies(ret_size: u64) -> Seq<ReturnDataCopy> {
    Seq::new(copy_count(ret_size) as nat, |i: int| copy_at(ret_size, i))
}

/// Plans the copies that fetch `ret_size` bytes of return data.
pub fn return_data_copy(ret_size: u64) -> (plan: Vec<ReturnDataCopy>)
    requires
        copy_count(ret_size) <= usize::MAX,
    ensures
        plan@ == copies(ret_size),
{
    let mut plan: Vec<ReturnDataCopy> = Vec::new();
    let full = ret_size / 32;
    let rest = ret_size % 32;
    let mut i: u64 = 0;
    while i < full
        invariant
            full == ret_size / 32,
            i <= full,
            plan@.len() == i,
            forall|k: int| 0 <= k < plan@.len() ==> plan@[k] == copy_at(ret_size, k),
        decreases full - i,
    {
        let offset = 32 * i;
        plan.push(ReturnDataCopy { dest_offset: offset, res_offset: offset, res_size: 32 });
        i += 1;
    }
    if rest > 0 {
        let offset = 32 * full;
        plan.push(ReturnDataCopy { dest_offset: offset, res_offset: offset, res_size: rest });
    }
    assert(plan@ =~= copies(ret_size));
    plan
}

/// The size of the return data to fetch: the size that the caller declared,
/// or, where it declared none, the size that the host reports.
pub fn return_data_size(declared: Option<u64>, reported: u64) -> (ret_size: u64)
    ensures
        ret_size == match declared {
            Some(size) => size,
            None => reported,
        },
{
    match declared {
        Some(size) => size,
        None => reported,
    }
}

/// The place of the first of `selectors` at or after `from` that is `wanted`;
/// the number of selectors where there is none.
pub open spec fn selector_position(selectors: Seq<[u8; 4]>, wanted: Seq<u8>, from: int) -> int
    decreases selectors.len() - from,
{
    if from < 0 || from >= selectors.len() {
        selectors.len() as int
    } else if selectors[from]@ == wanted {
        from
    } else {
        selector_position(selectors, wanted, from + 1)
    }
}

/// The handler that `calldata` asks for: the first one in the table whose
/// selector is the first four bytes of the calldata.
pub open spec fn handler_for(selectors: Seq<[u8; 4]>, calldata: Seq<u8>) -> Option<int> {
    if calldata.len() < 4 {
        None
    } else {
        let at = selector_position(selectors, calldata.take(4), 0);
        if at < selectors.len() {
            Some(at)
        } else {
            None
        }
    }
}

/// Routes `calldata` to a handler of the table. Calldata that names no
/// selector of the table is answered with a revert: the payload of the revert,
/// which is empty, is handed out.
pub fn dispatch(selectors: &Vec<[u8; 4]>, calldata: &[u8]) -> (route: Result<usize, Vec<u8>>)
    ensures
        match handler_for(selectors@, calldata@) {
            Some(at) => route == Ok::<usize, Vec<u8>>(at as usize),
            None => route matches Err(payload) && payload@.len() == 0,
        },
{
    if calldata.len() < 4 {
        return Err(Vec::new());
    }
    let mut i: usize = 0;
    while i < selectors.len()
        invariant
            calldata@.len() >= 4,
            i <= selectors.len(),
            selector_position(selectors@, calldata@.take(4), 0) == selector_position(
                selectors@,
                calldata@.take(4),
                i as int,
            ),
        decreases selectors.len() - i,
    {
        let s = &selectors[i];
        if s[0] == calldata[0] && s[1] == calldata[1] && s[2] == calldata[2] && s[3] == calldata[3] {
            assert(s@ =~= calldata@.take(4));
            return Ok(i);
        }
        assert(s@ != calldata@.take(4)) by {
            if s@ == calldata@.take(4) {
                assert(s@[0] == calldata@.take(4)[0]);
                assert(s@[1] == calldata@.take(4)[1]);
                assert(s@[2] == calldata@.take(4)[2]);
                assert(s@[3] == calldata@.take(4)[3]);
            }
        }
        i += 1;
    }
    Err(Vec::new())
}

} // verus!
