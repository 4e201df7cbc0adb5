//! What each step of the engines does to guest memory, to the file and for the caller.

use crate::async_io;
use crate::async_io::AsyncIoError;
use crate::async_io::Drain;
use crate::async_io::DrainStep;
use crate::async_io::WrappedRequest;
use crate::buffer;
use crate::buffer::AlignedBuf;
use crate::buffer::DIRECT_IO_ALIGN;
use crate::contents;
use crate::laws;
use crate::memory;
use crate::memory::GuestAccess;
use crate::memory::GuestAddress;
use crate::memory::GuestMemoryError;
use crate::storage::Storage;
use crate::sync_io;
use crate::sync_io::BouncedTransfer;
use crate::sync_io::Direction;
use crate::sync_io::SyncIoError;
use crate::sync_io::Transfer;
use crate::sync_io::TransferStep;
use crate::uring;
use crate::uring::Cqe;
use crate::uring::IO_URING_NUM_ENTRIES;
use crate::uring::OpCode;
use crate::uring::Operation;
use crate::uring::Restriction;
use crate::uring::RingSetup;
use vstd::prelude::*;

verus! {

/// Of the `len` addresses from `addr` on, the first `n` are mapped, and these are all of them or
/// the next one is not.
pub open spec fn reaches(regions: Seq<(u64, u64)>, addr: int, len: nat, n: nat) -> bool {
    &&& n <= len
    &&& forall|a: int| addr <= a < addr + n ==> memory::is_mapped(regions, a)
    &&& n < len ==> !memory::is_mapped(regions, addr + n)
}

/// Only one number of addresses reaches the first hole, and the mapped prefix is as long.
pub proof fn law_first_hole_is_unique(regions: Seq<(u64, u64)>, addr: int, len: nat, n: nat)
    ensures
        reaches(regions, addr, len, n) <==> n == memory::mapped_prefix(regions, addr, len),
{
    laws::law_prefix_ends_at_first_hole(regions, addr, len);
    let prefix = memory::mapped_prefix(regions, addr, len);
    if reaches(regions, addr, len, n) {
        if n < prefix {
            assert(memory::is_mapped(regions, addr + n));
        }
        if prefix < n {
            assert(memory::is_mapped(regions, addr + prefix));
        }
    }
}

/// An address is mapped if it lies between the bounds of a region, and a range lies in one region
/// if the bounds of that region enclose it. A range of addresses holds those between its bounds.
pub proof fn law_regions_hold_what_lies_in_their_bounds(
    regions: Seq<(u64, u64)>,
    addr: int,
    len: nat,
    a: int,
)
    ensures
        memory::is_mapped(regions, addr) <==> exists|i: int|
            0 <= i < regions.len() && (#[trigger] regions[i]).0 <= addr < regions[i].0
                + regions[i].1,
        memory::in_one_region(regions, addr, len) <==> exists|i: int|
            0 <= i < regions.len() && (#[trigger] regions[i]).0 <= addr < regions[i].0
                + regions[i].1 && addr + len <= regions[i].0 + regions[i].1,
        memory::address_range(addr, len).contains(a) <==> addr <= a < addr + len,
{
    if memory::is_mapped(regions, addr) {
        let i = choose|i: int|
            0 <= i < regions.len() && memory::in_region(#[trigger] regions[i], addr);
        assert(regions[i].0 <= addr < regions[i].0 + regions[i].1);
    }
    if exists|i: int|
        0 <= i < regions.len() && (#[trigger] regions[i]).0 <= addr < regions[i].0 + regions[i].1 {
        let i = choose|i: int|
            0 <= i < regions.len() && (#[trigger] regions[i]).0 <= addr < regions[i].0
                + regions[i].1;
        assert(memory::in_region(regions[i], addr));
    }
    if memory::in_one_region(regions, addr, len) {
        let i = choose|i: int|
            0 <= i < regions.len() && memory::in_region(#[trigger] regions[i], addr) && addr + len
                <= regions[i].0 + regions[i].1;
        assert(regions[i].0 <= addr < regions[i].0 + regions[i].1);
    }
    if exists|i: int|
        0 <= i < regions.len() && (#[trigger] regions[i]).0 <= addr < regions[i].0 + regions[i].1
            && addr + len <= regions[i].0 + regions[i].1 {
        let i = choose|i: int|
            0 <= i < regions.len() && (#[trigger] regions[i]).0 <= addr < regions[i].0
                + regions[i].1 && addr + len <= regions[i].0 + regions[i].1;
        assert(memory::in_region(regions[i], addr));
    }
}

/// In valid regions no two hold the same address, none is empty, and none reaches the end of the
/// address space.
pub proof fn law_valid_regions_are_apart(regions: Seq<(u64, u64)>, i: int, j: int, a: int)
    requires
        memory::regions_valid(regions),
        0 <= i < regions.len(),
        0 <= j < regions.len(),
        memory::in_region(regions[i], a),
        memory::in_region(regions[j], a),
    ensures
        i == j,
        memory::in_region(regions[i], regions[i].0 as int),
        a < u64::MAX,
{
    if i < j {
        assert(regions[i].0 + regions[i].1 <= regions[j].0);
    } else if j < i {
        assert(regions[j].0 + regions[j].1 <= regions[i].0);
    }
}

/// Regions that follow each other, are not empty and end inside the address space are valid.
pub proof fn law_regions_apart_are_valid(regions: Seq<(u64, u64)>)
    requires
        forall|i: int|
            0 <= i < regions.len() ==> (#[trigger] regions[i]).1 > 0 && regions[i].0
                + regions[i].1 <= u64::MAX,
        forall|i: int, j: int|
            0 <= i < j < regions.len() ==> (#[trigger] regions[i]).0 + regions[i].1 <= (
            #[trigger] regions[j]).0,
    ensures
        memory::regions_valid(regions),
{
}

/// A copy that stops says why and where: at once because its address is unmapped, or after as many
/// bytes as lie before the first hole.
pub proof fn law_copy_says_where_it_stopped(
    regions: Seq<(u64, u64)>,
    addr: GuestAddress,
    len: nat,
    n: nat,
)
    requires
        reaches(regions, addr.0 as int, len, n),
        len <= usize::MAX,
    ensures
        n == len ==> memory::copy_outcome(regions, addr, len) == Ok::<(), GuestMemoryError>(()),
        n < len && n == 0 ==> memory::copy_outcome(regions, addr, len) == Err::<
            (),
            GuestMemoryError,
        >(GuestMemoryError::InvalidGuestAddress(addr)),
        n < len && n > 0 ==> (memory::copy_outcome(regions, addr, len) matches Err(
            GuestMemoryError::PartialBuffer { expected, completed },
        ) && expected == len && completed == n),
{
    law_first_hole_is_unique(regions, addr.0 as int, len, n);
}

/// A slice is there exactly if one region holds all of it. It is refused for its address if that
/// is unmapped, and for its length otherwise.
pub proof fn law_slice_is_refused_for_a_reason(
    regions: Seq<(u64, u64)>,
    addr: GuestAddress,
    len: nat,
)
    ensures
        memory::slice_failure(regions, addr, len) is None <==> memory::in_one_region(
            regions,
            addr.0 as int,
            len,
        ),
        !memory::is_mapped(regions, addr.0 as int) ==> memory::slice_failure(regions, addr, len)
            == Some(GuestMemoryError::InvalidGuestAddress(addr)),
        memory::is_mapped(regions, addr.0 as int) && !memory::in_one_region(
            regions,
            addr.0 as int,
            len,
        ) ==> memory::slice_failure(regions, addr, len) == Some(
            GuestMemoryError::InvalidBackendAddress,
        ),
{
    law_regions_hold_what_lies_in_their_bounds(regions, addr.0 as int, len, 0);
}

/// One more read leaves the earlier accesses in their places and is itself the last.
pub proof fn law_one_read_more_is_a_read(
    before: Seq<GuestAccess>,
    after: Seq<GuestAccess>,
    addr: GuestAddress,
    len: nat,
)
    requires
        memory::one_read_more(before, after, addr, len),
    ensures
        after.len() == before.len() + 1,
        forall|i: int| 0 <= i < before.len() ==> after[i] == #[trigger] before[i],
        after[before.len() as int] matches GuestAccess::Read { addr: at, data } && at == addr
            && data.len() == len,
{
    assert forall|i: int| 0 <= i < before.len() implies after[i] == #[trigger] before[i] by {
        assert(after.drop_last()[i] == before[i]);
    }
}

/// The bytes at an address of a block are those as far into it as the address is past its place.
pub proof fn law_block_begins_at_its_place(storage: Storage, start: nat, len: nat)
    requires
        start + len <= storage@.len(),
    ensures
        storage.owns(storage.place() + start, len),
        storage.bytes_at(storage.place() + start, len) == storage@.subrange(
            start as int,
            (start + len) as int,
        ),
        !storage.owns(storage.place() - 1, 1),
        !storage.owns(storage.place() + storage@.len(), 1),
{
}

/// The alignment serves devices with 512-byte and with 4096-byte blocks, and a buffer that fits a
/// transfer has it and is as long as the transfer.
pub proof fn law_fitting_buffer_is_aligned(buf: AlignedBuf, count: u32)
    requires
        buf.fits(count),
    ensures
        buf@.len() == count,
        buf.ptr() as int % 512 == 0,
        buf.ptr() as int % 4096 == 0,
{
}

/// A buffer is refused for its size only where `isize` cannot count the memory that it takes, and
/// that is never so for a transfer where `isize` has 64 bits.
pub proof fn law_size_is_refused_only_past_isize(len: usize, align: usize, count: u32)
    ensures
        align > 0 ==> (buffer::can_reserve(len as int, align as int) <==> len + align
            <= isize::MAX),
        !buffer::can_reserve(len as int, 0),
        isize::MAX >= 0x1_0000_0000int + DIRECT_IO_ALIGN ==> buffer::can_reserve(
            count as int,
            DIRECT_IO_ALIGN as int,
        ),
{
}

/// A result that is not negative counts the bytes moved; a negative one stands for none.
pub proof fn law_result_counts_the_bytes_moved(res: i32)
    ensures
        res >= 0 ==> uring::completed_bytes(res) == res,
        res < 0 ==> uring::completed_bytes(res) == 0,
{
}

/// Popping hands out the ring's own result, whatever kind of request it belongs to and whether or
/// not it is an error, together with the request that went in.
pub proof fn law_completion_keeps_its_result<R, E>(c: Cqe<WrappedRequest<R>>)
    ensures
        async_io::pop_outcome::<R, E>(Ok(Some(c))) matches Ok(Some(cqe)) && cqe.res == c.res
            && cqe.user_data == c.user_data.req,
{
}

/// Two completions with the same result are reported with the same result, however their requests
/// differ.
pub proof fn law_result_does_not_depend_on_the_request<R, E>(
    one: Cqe<WrappedRequest<R>>,
    other: Cqe<WrappedRequest<R>>,
)
    requires
        one.res == other.res,
    ensures
        async_io::pop_outcome::<R, E>(Ok(Some(one))) matches Ok(Some(a)) && ({
            &&& async_io::pop_outcome::<R, E>(Ok(Some(other))) matches Ok(Some(b))
            &&& a.res == b.res
        }),
{
}

/// A ring with nothing to hand out, or that fails, has that reported, and guest memory is left
/// alone.
pub proof fn law_pop_of_nothing<R, E>(error: E, regions: Seq<(u64, u64)>)
    ensures
        async_io::pop_outcome::<R, E>(Ok(None)) matches Ok(None),
        async_io::pop_outcome::<R, E>(Err(error)) matches Err(AsyncIoError::IoUring(e)) && e
            == error,
        async_io::pop_accesses::<R, E>(Ok(None), regions) == Seq::<GuestAccess>::empty(),
        async_io::pop_accesses::<R, E>(Err(error), regions) == Seq::<GuestAccess>::empty(),
        async_io::pop_dirty::<R, E>(Ok(None), regions) == Set::<int>::empty(),
        async_io::pop_dirty::<R, E>(Err(error), regions) == Set::<int>::empty(),
{
}

/// A submission that the ring takes is accepted; one that it refuses gives the request back, with
/// the ring's own error.
pub proof fn law_ring_decides_on_a_submission<R, E>(error: E, data: WrappedRequest<R>)
    ensures
        async_io::push_outcome::<R, E>(Ok(())) is Ok,
        async_io::push_outcome::<R, E>(Err((error, data))) matches Err(refused) && refused.req
            == data.req && refused.error == AsyncIoError::IoUring(error),
{
}

/// A read, bounced or not, asks for as many bytes as its caller did, from the offset that its
/// caller gave, of the one file there is. Its request names where in guest memory they belong.
pub proof fn law_read_asks_for_what_its_caller_did<R, E>(
    offset: u64,
    addr: GuestAddress,
    count: u32,
    req: R,
    bounce: AlignedBuf,
    host: usize,
)
    ensures
        async_io::bounced_read::<R, E>(offset, addr, count, req, Some(bounce)) matches Ok(op) && ({
            &&& op.opcode == OpCode::Read
            &&& op.fd == 0
            &&& op.offset == Some(offset)
            &&& op.len == Some(count)
            &&& op.addr == Some(bounce.ptr())
            &&& op.user_data.req == req
            &&& op.user_data.addr == Some(addr)
            &&& op.user_data.bounce_buf == Some(bounce)
        }),
        async_io::unbounced_read::<R, E>(offset, addr, count, req, Ok(host)) matches Ok(op) && ({
            &&& op.opcode == OpCode::Read
            &&& op.fd == 0
            &&& op.offset == Some(offset)
            &&& op.len == Some(count)
            &&& op.addr == Some(host)
            &&& op.user_data.req == req
            &&& op.user_data.addr == Some(addr)
            &&& op.user_data.bounce_buf is None
        }),
{
}

/// A write, bounced or not, asks for as many bytes as its caller did, to the offset that its caller
/// gave, of the one file there is. Its request has nothing to do in guest memory.
pub proof fn law_write_asks_for_what_its_caller_did<R, E>(
    offset: u64,
    count: u32,
    req: R,
    bounce: AlignedBuf,
    host: usize,
)
    ensures
        async_io::bounced_write::<R, E>(offset, count, req, Ok(bounce)) matches Ok(op) && ({
            &&& op.opcode == OpCode::Write
            &&& op.fd == 0
            &&& op.offset == Some(offset)
            &&& op.len == Some(count)
            &&& op.addr == Some(bounce.ptr())
            &&& op.user_data.req == req
            &&& op.user_data.addr is None
            &&& op.user_data.bounce_buf == Some(bounce)
        }),
        async_io::unbounced_write::<R, E>(offset, count, req, Ok(host)) matches Ok(op) && ({
            &&& op.opcode == OpCode::Write
            &&& op.fd == 0
            &&& op.offset == Some(offset)
            &&& op.len == Some(count)
            &&& op.addr == Some(host)
            &&& op.user_data.req == req
            &&& op.user_data.addr is None
            &&& op.user_data.bounce_buf is None
        }),
{
}

/// A flush names the file, moves no bytes, and its request has nothing to do in guest memory.
pub proof fn law_flush_moves_no_bytes<R>(req: R)
    ensures
        async_io::flush_operation(req).opcode == OpCode::Fsync,
        async_io::flush_operation(req).fd == 0,
        async_io::flush_operation(req).addr is None,
        async_io::flush_operation(req).len is None,
        async_io::flush_operation(req).offset is None,
        async_io::flush_operation(req).user_data.req == req,
        async_io::flush_operation(req).user_data.addr is None,
        async_io::flush_operation(req).user_data.bounce_buf is None,
{
}

/// A request that could not be prepared is refused with the reason for it, and handed back.
pub proof fn law_refusal_names_its_reason<R, E>(
    offset: u64,
    addr: GuestAddress,
    count: u32,
    req: R,
    failure: GuestMemoryError,
    error: AsyncIoError<E>,
)
    ensures
        async_io::bounced_read::<R, E>(offset, addr, count, req, None) matches Err(refused)
            && refused.req == req && refused.error == AsyncIoError::<E>::BounceBufferAlloc,
        async_io::unbounced_read::<R, E>(offset, addr, count, req, Err(failure)) matches Err(
            refused,
        ) && refused.req == req && refused.error == AsyncIoError::<E>::GuestMemory(failure),
        async_io::bounced_write::<R, E>(offset, count, req, Err(error)) matches Err(refused)
            && refused.req == req && refused.error == error,
        async_io::unbounced_write::<R, E>(offset, count, req, Err(failure)) matches Err(refused)
            && refused.req == req && refused.error == AsyncIoError::<E>::GuestMemory(failure),
{
}

/// The guest address of the byte at `host`, in guest memory that `slice` was handed out of.
pub open spec fn guest_address_of(slice: GuestAccess, host: int) -> int {
    match slice {
        GuestAccess::Slice { addr, len: _, host: first } => addr.0 + (host - first),
        _ => host,
    }
}

/// What guest memory holds once the ring has done the read `op` into it, through `slice`.
pub open spec fn guest_after_ring_read<R>(
    op: Operation<WrappedRequest<R>>,
    slice: GuestAccess,
    held: spec_fn(int) -> u8,
    file: spec_fn(int) -> u8,
) -> spec_fn(int) -> u8 {
    contents::overwritten(
        held,
        guest_address_of(slice, op.addr->0 as int),
        contents::bytes_of(file, op.offset->0 as int, op.len->0 as nat),
    )
}

/// What the file holds once the ring has done the write `op`: the bytes come from the request's own
/// memory where it is bounced, and from guest memory, through `slice`, where it is not.
pub open spec fn file_after_ring_write<R>(
    op: Operation<WrappedRequest<R>>,
    slice: GuestAccess,
    held: spec_fn(int) -> u8,
    file: spec_fn(int) -> u8,
) -> spec_fn(int) -> u8 {
    contents::overwritten(
        file,
        op.offset->0 as int,
        if op.user_data.bounce_buf is Some {
            laws::submitted_bytes(op)
        } else {
            contents::bytes_of(
                held,
                guest_address_of(slice, op.addr->0 as int),
                op.len->0 as nat,
            )
        },
    )
}

/// A read through the ring that is not bounced puts the bytes of the file, from the offset asked
/// for, into guest memory at the address asked for, exactly as many as were asked for, all of them
/// in the slice that was handed out for it.
pub proof fn law_unbounced_ring_read_fills_the_range<R, E>(
    offset: u64,
    addr: GuestAddress,
    count: u32,
    req: R,
    host: usize,
    held: spec_fn(int) -> u8,
    file: spec_fn(int) -> u8,
)
    ensures
        async_io::unbounced_read::<R, E>(offset, addr, count, req, Ok(host)) matches Ok(op) && ({
            let slice = GuestAccess::Slice { addr, len: count as nat, host };
            &&& op.addr->0 == host
            &&& op.len->0 == count
            &&& guest_after_ring_read(op, slice, held, file) == contents::overwritten(
                held,
                addr.0 as int,
                contents::bytes_of(file, offset as int, count as nat),
            )
        }),
{
}

/// A write through the ring puts the guest's bytes at the address asked for into the file at the
/// offset asked for, exactly as many as were asked for, and changes nothing else in the file.
/// Bounced, they are the bytes that the guest held when the write was prepared.
pub proof fn law_ring_write_stores_the_range<R, E>(
    offset: u64,
    addr: GuestAddress,
    count: u32,
    req: R,
    bounce: AlignedBuf,
    host: usize,
    held: spec_fn(int) -> u8,
    later: spec_fn(int) -> u8,
    file: spec_fn(int) -> u8,
)
    requires
        bounce.fits(count),
        contents::agrees(held, GuestAccess::Read { addr, data: bounce@ }),
    ensures
        async_io::bounced_write::<R, E>(offset, count, req, Ok(bounce)) matches Ok(op) && ({
            let read = GuestAccess::Read { addr, data: bounce@ };
            file_after_ring_write(op, read, later, file) == contents::overwritten(
                file,
                offset as int,
                contents::bytes_of(held, addr.0 as int, count as nat),
            )
        }),
        async_io::unbounced_write::<R, E>(offset, count, req, Ok(host)) matches Ok(op) && ({
            let slice = GuestAccess::Slice { addr, len: count as nat, host };
            file_after_ring_write(op, slice, held, file) == contents::overwritten(
                file,
                offset as int,
                contents::bytes_of(held, addr.0 as int, count as nat),
            )
        }),
{
    laws::law_bounced_write_is_a_snapshot::<R, E>(offset, addr, count, req, bounce, held);
}

/// A bounced read through the ring puts the bytes of the file, from the offset asked for, into
/// guest memory at the address asked for once it is popped: as many as the result says, and nothing
/// else changes. Exactly these addresses are marked dirty.
pub proof fn law_bounced_ring_read_fills_the_range<R, E>(
    offset: u64,
    addr: GuestAddress,
    count: u32,
    req: R,
    bounce: AlignedBuf,
    filled: AlignedBuf,
    res: i32,
    regions: Seq<(u64, u64)>,
    held: spec_fn(int) -> u8,
    file: spec_fn(int) -> u8,
)
    requires
        bounce.fits(count),
        filled.fits(count),
        filled.ptr() == bounce.ptr(),
        0 <= res <= count,
        forall|a: int| addr.0 <= a < addr.0 + res ==> memory::is_mapped(regions, a),
    ensures
        async_io::bounced_read::<R, E>(offset, addr, count, req, Some(bounce)) matches Ok(op) && ({
            let user_data = WrappedRequest { bounce_buf: Some(filled), ..op.user_data };
            let popped: Result<Option<Cqe<WrappedRequest<R>>>, E> = Ok(
                Some(Cqe { res, user_data }),
            );
            filled.memory_at(op.addr->0 as int, res as nat) == contents::bytes_of(
                file,
                op.offset->0 as int,
                res as nat,
            ) ==> {
                &&& contents::after_all(held, async_io::pop_accesses(popped, regions))
                    == contents::overwritten(
                    held,
                    addr.0 as int,
                    contents::bytes_of(file, offset as int, res as nat),
                )
                &&& async_io::pop_dirty(popped, regions) == memory::address_range(
                    addr.0 as int,
                    res as nat,
                )
            }
        }),
{
    let n = res as nat;
    law_first_hole_is_unique(regions, addr.0 as int, n, n);
    buffer::lemma_bytes_lie_at_ptr(filled, n);
    contents::lemma_after_write(
        held,
        GuestAccess::Write { addr, data: filled@.take(n as int) },
        GuestAccess::Mark { addr, len: n },
    );
}

/// What a completion does to guest memory is settled by how far the memory is mapped: a request
/// that names no guest address does nothing; a bounced read writes the bytes before the first hole
/// and after that marks them; any other read only marks them.
pub proof fn law_completion_reaches_the_first_hole<R>(
    wrapped: WrappedRequest<R>,
    regions: Seq<(u64, u64)>,
    count: u32,
    n: nat,
)
    requires
        wrapped.addr matches Some(addr) ==> reaches(regions, addr.0 as int, count as nat, n),
    ensures
        wrapped.addr is None ==> {
            &&& wrapped.completion_accesses(regions, count) == Seq::<GuestAccess>::empty()
            &&& wrapped.completion_dirty(regions, count) == Set::<int>::empty()
            &&& wrapped.completion_outcome(regions, count) is Ok
        },
        wrapped.addr matches Some(addr) ==> {
            &&& forall|a: int|
                wrapped.completion_dirty(regions, count).contains(a) <==> addr.0 <= a < addr.0 + n
            &&& wrapped.completion_accesses(regions, count).last() == GuestAccess::Mark {
                addr,
                len: n,
            }
            &&& match wrapped.bounce_buf {
                Some(bounce) => {
                    &&& wrapped.completion_accesses(regions, count).len() == 2
                    &&& wrapped.completion_accesses(regions, count)[0] == GuestAccess::Write {
                        addr,
                        data: bounce@.take(n as int),
                    }
                    &&& wrapped.completion_outcome(regions, count) == if n == count {
                        Ok::<(), GuestMemoryError>(())
                    } else if n == 0 {
                        Err(GuestMemoryError::InvalidGuestAddress(addr))
                    } else {
                        Err(
                            GuestMemoryError::PartialBuffer {
                                expected: count as usize,
                                completed: n as usize,
                            },
                        )
                    }
                },
                None => {
                    &&& wrapped.completion_accesses(regions, count).len() == 1
                    &&& wrapped.completion_outcome(regions, count) is Ok
                },
            }
        },
{
    if let Some(addr) = wrapped.addr {
        law_first_hole_is_unique(regions, addr.0 as int, count as nat, n);
    }
}

/// Popping does what completing the request does, with as many bytes as the result counts.
pub proof fn law_pop_completes_the_request<R, E>(
    c: Cqe<WrappedRequest<R>>,
    regions: Seq<(u64, u64)>,
    count: u32,
)
    requires
        count == if c.res >= 0 {
            c.res as int
        } else {
            0
        },
    ensures
        async_io::pop_accesses::<R, E>(Ok(Some(c)), regions) == c.user_data.completion_accesses(
            regions,
            count,
        ),
        async_io::pop_dirty::<R, E>(Ok(Some(c)), regions) == c.user_data.completion_dirty(
            regions,
            count,
        ),
{
}

/// A request that failed changes no byte of guest memory when it is popped, and marks nothing.
pub proof fn law_failed_request_changes_nothing<R, E>(
    c: Cqe<WrappedRequest<R>>,
    regions: Seq<(u64, u64)>,
    held: spec_fn(int) -> u8,
)
    requires
        c.res < 0,
    ensures
        contents::after_all(held, async_io::pop_accesses::<R, E>(Ok(Some(c)), regions)) == held,
        async_io::pop_dirty::<R, E>(Ok(Some(c)), regions) == Set::<int>::empty(),
{
    if let Some(addr) = c.user_data.addr {
        let mark = GuestAccess::Mark { addr, len: 0 };
        match c.user_data.bounce_buf {
            Some(bounce) => {
                let write = GuestAccess::Write { addr, data: bounce@.take(0) };
                contents::lemma_after_write(held, write, mark);
                assert(contents::after(held, write) =~= held);
            },
            None => {
                contents::lemma_after_write(held, mark, mark);
            },
        }
        assert(memory::address_range(addr.0 as int, 0) =~= Set::<int>::empty());
    }
}

/// Only a bounced read can be told of too many bytes, and only of more than its buffer holds.
pub proof fn law_only_a_bounced_read_can_overrun<R>(wrapped: WrappedRequest<R>, count: u32)
    ensures
        !wrapped.accepts(count) <==> wrapped.addr is Some && (wrapped.bounce_buf matches Some(b)
            && count > b@.len()),
{
}

/// A ring serves its file and no other, signals on the descriptor it was given, has the entries of
/// the device, insists on registered files and takes reads, writes and flushes.
pub proof fn law_ring_serves_its_file_only<F>(
    setup: RingSetup<'_, F>,
    file: &F,
    completion_fd: i32,
    code: OpCode,
)
    requires
        async_io::is_ring_for(setup, file, completion_fd),
    ensures
        setup.files@.len() == 1,
        setup.files@[0] == file,
        setup.eventfd == Some(completion_fd),
        setup.num_entries == IO_URING_NUM_ENTRIES,
        setup.num_entries > 0,
        setup.restrictions@.contains(Restriction::RequireFixedFds),
        setup.restrictions@.contains(Restriction::AllowOpCode(code)),
{
    assert(setup.restrictions@[0] == Restriction::RequireFixedFds);
    assert(setup.restrictions@[1] == Restriction::AllowOpCode(OpCode::Read));
    assert(setup.restrictions@[2] == Restriction::AllowOpCode(OpCode::Write));
    assert(setup.restrictions@[3] == Restriction::AllowOpCode(OpCode::Fsync));
}

/// A blocking transfer never succeeds before its file operation. One that is not bounced goes on
/// with a slice of guest memory exactly if one region holds all of its range, and that slice is the
/// one that was handed out for it.
pub proof fn law_transfer_waits_for_its_file_operation(
    transfer: Transfer,
    regions: Seq<(u64, u64)>,
    before: Seq<GuestAccess>,
    after: Seq<GuestAccess>,
    step: TransferStep,
)
    requires
        transfer.goes_on(regions, before, after, step),
    ensures
        !(step matches TransferStep::Done(Ok(_))),
        !transfer.bounced ==> (step is Unbounced <==> memory::in_one_region(
            regions,
            transfer.addr.0 as int,
            transfer.count as nat,
        )),
        !transfer.bounced ==> step !is Bounced,
        transfer.bounced ==> step !is Unbounced,
        step matches TransferStep::Unbounced(u) ==> u.transfer == transfer && after
            == before.push(
            GuestAccess::Slice {
                addr: transfer.addr,
                len: transfer.count as nat,
                host: u.host,
            },
        ),
        step matches TransferStep::Bounced(b) ==> b.transfer == transfer && b.wf() && b.buf@.len()
            == transfer.count && b.buf.ptr() as int % DIRECT_IO_ALIGN as int == 0,
{
    law_slice_is_refused_for_a_reason(regions, transfer.addr, transfer.count as nat);
}

/// A blocking transfer that ends before its file operation has a reason: one that is not bounced,
/// that no region holds its range; a bounced write, that not all of its range is mapped; a bounced
/// one of either kind, that it has no buffer. Only the write's failed copy has touched guest
/// memory.
pub proof fn law_transfer_ends_early_for_a_reason(
    transfer: Transfer,
    regions: Seq<(u64, u64)>,
    before: Seq<GuestAccess>,
    after: Seq<GuestAccess>,
    step: TransferStep,
    n: nat,
)
    requires
        transfer.goes_on(regions, before, after, step),
        step is Done,
        reaches(regions, transfer.addr.0 as int, transfer.count as nat, n),
    ensures
        !transfer.bounced ==> after == before && step == TransferStep::Done(
            Err(
                SyncIoError::Transfer(
                    if memory::is_mapped(regions, transfer.addr.0 as int) {
                        GuestMemoryError::InvalidBackendAddress
                    } else {
                        GuestMemoryError::InvalidGuestAddress(transfer.addr)
                    },
                ),
            ),
        ),
        transfer.bounced && (transfer.direction == Direction::Read || n == transfer.count)
            ==> after == before && step == TransferStep::Done(Err(SyncIoError::BounceBufferAlloc)),
        transfer.bounced && after != before ==> {
            &&& transfer.direction == Direction::Write
            &&& n < transfer.count
            &&& after.len() == before.len() + 1
            &&& after.drop_last() == before
            &&& after.last() matches GuestAccess::Read { addr, data }
            &&& addr == transfer.addr
            &&& data.len() == n
            &&& step == TransferStep::Done(
                Err(
                    SyncIoError::Transfer(
                        if n == 0 {
                            GuestMemoryError::InvalidGuestAddress(transfer.addr)
                        } else {
                            GuestMemoryError::PartialBuffer {
                                expected: transfer.count as usize,
                                completed: n as usize,
                            }
                        },
                    ),
                ),
            )
        },
{
    law_slice_is_refused_for_a_reason(regions, transfer.addr, transfer.count as nat);
    law_first_hole_is_unique(regions, transfer.addr.0 as int, transfer.count as nat, n);
}

/// A bounced write goes on only with all of the guest's bytes: its whole range is mapped, and what
/// its buffer holds is what was just read there.
pub proof fn law_bounced_write_has_its_bytes(
    transfer: Transfer,
    regions: Seq<(u64, u64)>,
    before: Seq<GuestAccess>,
    after: Seq<GuestAccess>,
    b: BouncedTransfer,
)
    requires
        transfer.goes_on(regions, before, after, TransferStep::Bounced(b)),
    ensures
        transfer.direction == Direction::Read ==> after == before,
        transfer.direction == Direction::Write ==> {
            &&& after == before.push(GuestAccess::Read { addr: transfer.addr, data: b.buf@ })
            &&& forall|a: int|
                transfer.addr.0 <= a < transfer.addr.0 + transfer.count ==> memory::is_mapped(
                    regions,
                    a,
                )
        },
{
    laws::law_copy_succeeds_iff_mapped(regions, transfer.addr, transfer.count as nat);
}

/// A blocking transfer whose file operation went well succeeds with its count, save a bounced read
/// into a hole; one whose file operation failed has that failure reported.
pub proof fn law_file_operation_decides_the_transfer(
    transfer: Transfer,
    regions: Seq<(u64, u64)>,
    error: std::io::Error,
    failure: GuestMemoryError,
    n: nat,
)
    requires
        reaches(regions, transfer.addr.0 as int, transfer.count as nat, n),
    ensures
        sync_io::bounced_outcome(transfer, regions, Err(error)) == Err::<u32, SyncIoError>(
            SyncIoError::BounceBuffer(error),
        ),
        transfer.direction == Direction::Write || n == transfer.count ==> sync_io::bounced_outcome(
            transfer,
            regions,
            Ok(()),
        ) == Ok::<u32, SyncIoError>(transfer.count),
        transfer.direction == Direction::Read && n < transfer.count && n > 0
            ==> sync_io::bounced_outcome(transfer, regions, Ok(())) == Err::<u32, SyncIoError>(
            SyncIoError::Transfer(
                GuestMemoryError::PartialBuffer {
                    expected: transfer.count as usize,
                    completed: n as usize,
                },
            ),
        ),
        transfer.direction == Direction::Read && n < transfer.count && n == 0
            ==> sync_io::bounced_outcome(transfer, regions, Ok(())) == Err::<u32, SyncIoError>(
            SyncIoError::Transfer(GuestMemoryError::InvalidGuestAddress(transfer.addr)),
        ),
        sync_io::unbounced_outcome(transfer, Ok(())) == Ok::<u32, SyncIoError>(transfer.count),
        sync_io::unbounced_outcome(transfer, Err(failure)) == Err::<u32, SyncIoError>(
            SyncIoError::Transfer(failure),
        ),
{
    law_first_hole_is_unique(regions, transfer.addr.0 as int, transfer.count as nat, n);
}

/// A bounced read whose file operation went well writes the bytes before the first hole, from the
/// start of its buffer, and marks exactly these. A write, or a transfer whose file operation
/// failed, leaves guest memory alone.
pub proof fn law_bounced_transfer_reaches_the_first_hole(
    t: BouncedTransfer,
    regions: Seq<(u64, u64)>,
    error: std::io::Error,
    n: nat,
)
    requires
        reaches(regions, t.transfer.addr.0 as int, t.transfer.count as nat, n),
    ensures
        t.transfer.direction == Direction::Read ==> {
            &&& t.moved_accesses(regions, Ok(())).len() == 1
            &&& t.moved_accesses(regions, Ok(()))[0] == GuestAccess::Write {
                addr: t.transfer.addr,
                data: t.buf@.take(n as int),
            }
            &&& forall|a: int|
                t.moved_dirty(regions, Ok(())).contains(a) <==> t.transfer.addr.0 <= a
                    < t.transfer.addr.0 + n
        },
        t.transfer.direction == Direction::Write ==> {
            &&& t.moved_accesses(regions, Ok(())) == Seq::<GuestAccess>::empty()
            &&& t.moved_dirty(regions, Ok(())) == Set::<int>::empty()
        },
        t.moved_accesses(regions, Err(error)) == Seq::<GuestAccess>::empty(),
        t.moved_dirty(regions, Err(error)) == Set::<int>::empty(),
{
    law_first_hole_is_unique(regions, t.transfer.addr.0 as int, t.transfer.count as nat, n);
}

/// A drain whose wait fails ends with the ring's error. One that keeps completions goes straight to
/// its end: it is done, or the file is synced, as it was started.
pub proof fn law_drain_without_discarding<E>(drain: Drain, in_flight: u32, error: E)
    ensures
        drain.after_wait::<E>(Err(error)) == DrainStep::Done(Err(AsyncIoError::IoUring(error))),
        !drain.discard_cqes && !drain.flush ==> drain.after_wait::<E>(Ok(in_flight))
            == DrainStep::<E>::Done(Ok(())),
        !drain.discard_cqes && drain.flush ==> drain.after_wait::<E>(Ok(in_flight))
            == DrainStep::<E>::SyncAll(drain),
{
}

/// A drain that drops completions asks for one after the other for as long as there are any, and
/// is still the drain that was started. Once there are none it syncs the file exactly if it was
/// started to; a ring that fails ends it with the ring's error.
pub proof fn law_drain_runs_as_it_was_started<T, E>(
    drain: Drain,
    in_flight: u32,
    pops: Seq<Result<Option<T>, E>>,
    error: E,
)
    requires
        drain.discard_cqes,
        forall|i: int| 0 <= i < pops.len() ==> (#[trigger] pops[i]) matches Ok(Some(_)),
    ensures
        laws::after_pops(drain.after_wait::<E>(Ok(in_flight)), pops) == DrainStep::<E>::Pop(drain),
        laws::after_pops(drain.after_wait::<E>(Ok(in_flight)), pops.push(Ok(None)))
            == if drain.flush {
            DrainStep::<E>::SyncAll(drain)
        } else {
            DrainStep::<E>::Done(Ok(()))
        },
        laws::after_pops(drain.after_wait::<E>(Ok(in_flight)), pops.push(Err(error)))
            == DrainStep::Done(Err(AsyncIoError::IoUring(error))),
{
    lemma_drain_goes_on(drain, pops);
    let last = pops.len() as int;
    let empty = pops.push(Ok(None));
    let failed = pops.push(Err(error));
    assert(empty[last] matches Ok(None));
    assert(failed[last] matches Err(_));
    laws::law_drain_ends_at_first_gap(drain, empty, last);
    laws::law_drain_ends_at_first_gap(drain, failed, last);
}

/// Completions do not end a drain that drops them.
proof fn lemma_drain_goes_on<T, E>(drain: Drain, pops: Seq<Result<Option<T>, E>>)
    requires
        forall|i: int| 0 <= i < pops.len() ==> (#[trigger] pops[i]) matches Ok(Some(_)),
    ensures
        laws::after_pops(DrainStep::<E>::Pop(drain), pops) == DrainStep::<E>::Pop(drain),
    decreases pops.len(),
{
    reveal_with_fuel(laws::after_pops, 2);
    if pops.len() > 0 {
        let rest = pops.drop_first();
        assert(pops[0] matches Ok(Some(_)));
        assert forall|i: int| 0 <= i < rest.len() implies (#[trigger] rest[i]) matches Ok(
            Some(_),
        ) by {
            assert(rest[i] == pops[i + 1]);
        }
        lemma_drain_goes_on(drain, rest);
    }
}

} // verus!
