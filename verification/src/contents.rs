//! What guest memory and files hold for as long as nobody else changes it.
//!
//! Contents are a byte for each address of guest memory, or for each offset of a file.

use crate::memory::GuestAccess;
use vstd::prelude::*;

verus! {

/// The `len` bytes from `at` on.
pub open spec fn bytes_of(held: spec_fn(int) -> u8, at: int, len: nat) -> Seq<u8> {
    Seq::new(len, |i: int| held(at + i))
}

/// The contents once `data` has been put at `at`.
pub open spec fn overwritten(held: spec_fn(int) -> u8, at: int, data: Seq<u8>) -> spec_fn(
    int,
) -> u8 {
    |a: int|
        if at <= a < at + data.len() {
            data[a - at]
        } else {
            held(a)
        }
}

/// Whether `access` can have been made while guest memory held `held`: what was read is what was
/// there.
pub open spec fn agrees(held: spec_fn(int) -> u8, access: GuestAccess) -> bool {
    match access {
        GuestAccess::Read { addr, data } => data == bytes_of(held, addr.0 as int, data.len()),
        _ => true,
    }
}

/// What guest memory holds after `access`.
pub open spec fn after(held: spec_fn(int) -> u8, access: GuestAccess) -> spec_fn(int) -> u8 {
    match access {
        GuestAccess::Write { addr, data } => overwritten(held, addr.0 as int, data),
        _ => held,
    }
}

/// What guest memory holds after all of `accesses`, in their order.
pub open spec fn after_all(held: spec_fn(int) -> u8, accesses: Seq<GuestAccess>) -> spec_fn(
    int,
) -> u8
    decreases accesses.len(),
{
    if accesses.len() == 0 {
        held
    } else {
        after(after_all(held, accesses.drop_last()), accesses.last())
    }
}

/// What was put somewhere is what is there.
pub proof fn lemma_overwritten_is_held(held: spec_fn(int) -> u8, at: int, data: Seq<u8>)
    ensures
        bytes_of(overwritten(held, at, data), at, data.len()) == data,
{
    assert(bytes_of(overwritten(held, at, data), at, data.len()) =~= data);
}

/// A write, and marks behind it, leave what the write put there.
pub proof fn lemma_after_write(held: spec_fn(int) -> u8, write: GuestAccess, mark: GuestAccess)
    requires
        mark is Mark,
    ensures
        after_all(held, seq![write]) == after(held, write),
        after_all(held, seq![write, mark]) == after(held, write),
{
    reveal_with_fuel(after_all, 3);
    assert(seq![write].drop_last() =~= Seq::<GuestAccess>::empty());
    assert(seq![write, mark].drop_last() =~= seq![write]);
}

} // verus!
