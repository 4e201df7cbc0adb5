//! What holds of the engines as a whole.

use crate::async_io;
use crate::async_io::AsyncIoError;
use crate::async_io::Drain;
use crate::async_io::DrainStep;
use crate::async_io::RequestError;
use crate::async_io::WrappedRequest;
use crate::buffer;
use crate::buffer::AlignedBuf;
use crate::buffer::DIRECT_IO_ALIGN;
use crate::contents;
use crate::memory;
use crate::memory::GuestAccess;
use crate::memory::GuestAddress;
use crate::memory::GuestMemoryError;
use crate::sync_io;
use crate::sync_io::BouncedTransfer;
use crate::sync_io::Direction;
use crate::sync_io::SyncIoError;
use crate::sync_io::Transfer;
use crate::sync_io::TransferStep;
use crate::uring::Cqe;
use crate::uring::OpCode;
use crate::uring::Operation;
use crate::uring::Restriction;
use crate::uring::RingSetup;
use vstd::multiset::Multiset;
use vstd::prelude::*;

verus! {

/// A mapped prefix ends at the first hole: every address in it is mapped, and the one behind it
/// is not, unless the range ends there.
pub proof fn law_prefix_ends_at_first_hole(regions: Seq<(u64, u64)>, addr: int, len: nat)
    ensures
        memory::mapped_prefix(regions, addr, len) <= len,
        forall|a: int|
            addr <= a < addr + memory::mapped_prefix(regions, addr, len) ==> memory::is_mapped(
                regions,
                a,
            ),
        memory::mapped_prefix(regions, addr, len) < len ==> !memory::is_mapped(
            regions,
            addr + memory::mapped_prefix(regions, addr, len),
        ),
    decreases len,
{
    if len > 0 && memory::is_mapped(regions, addr) {
        law_prefix_ends_at_first_hole(regions, addr + 1, (len - 1) as nat);
    }
}

/// A copy from or to guest memory succeeds exactly if all of the range is mapped.
pub proof fn law_copy_succeeds_iff_mapped(
    regions: Seq<(u64, u64)>,
    addr: GuestAddress,
    len: nat,
)
    ensures
        memory::copy_outcome(regions, addr, len) is Ok <==> forall|a: int|
            addr.0 <= a < addr.0 + len ==> memory::is_mapped(regions, a),
{
    law_prefix_ends_at_first_hole(regions, addr.0 as int, len);
    let n = memory::mapped_prefix(regions, addr.0 as int, len);
    if n < len {
        assert(!memory::is_mapped(regions, addr.0 + n));
    }
}

/// Bouncing refuses nothing that could be done without it: where one slice of guest memory covers
/// a range, copying from and to the range succeeds.
pub proof fn law_bouncing_accepts_every_slice(
    regions: Seq<(u64, u64)>,
    addr: GuestAddress,
    len: nat,
)
    requires
        memory::slice_failure(regions, addr, len) is None,
    ensures
        memory::copy_outcome(regions, addr, len) is Ok,
{
    let i = choose|i: int|
        0 <= i < regions.len() && memory::in_region(#[trigger] regions[i], addr.0 as int) && addr.0
            + len <= regions[i].0 + regions[i].1;
    assert forall|a: int| addr.0 <= a < addr.0 + len implies memory::is_mapped(regions, a) by {
        assert(memory::in_region(regions[i], a));
    }
    law_copy_succeeds_iff_mapped(regions, addr, len);
}

/// Only unbuffered transfers at unaligned addresses are bounced, and all of those are.
pub proof fn law_bounce_only_unaligned_direct(direct: bool, addr: GuestAddress)
    ensures
        buffer::needs_bounce(direct, addr) <==> direct && !(exists|k: int|
            addr.0 == #[trigger] (k * DIRECT_IO_ALIGN)),
{
    let align = DIRECT_IO_ALIGN as int;
    if addr.0 as int % align == 0 {
        vstd::arithmetic::div_mod::lemma_fundamental_div_mod(addr.0 as int, align);
        assert(addr.0 == (addr.0 as int / align) * DIRECT_IO_ALIGN);
    }
    if exists|k: int| addr.0 == #[trigger] (k * DIRECT_IO_ALIGN) {
        let k = choose|k: int| addr.0 == #[trigger] (k * DIRECT_IO_ALIGN);
        vstd::arithmetic::div_mod::lemma_mod_multiples_basic(k, align);
    }
}

/// A blocking transfer that succeeds has moved all of its bytes, and says so; it succeeds only if
/// its file operation did.
pub proof fn law_transfer_is_whole(
    transfer: Transfer,
    regions: Seq<(u64, u64)>,
    bounced: Result<(), std::io::Error>,
    unbounced: Result<(), GuestMemoryError>,
)
    ensures
        sync_io::bounced_outcome(transfer, regions, bounced) matches Ok(n) ==> n == transfer.count
            && bounced is Ok,
        sync_io::unbounced_outcome(transfer, unbounced) matches Ok(n) ==> n == transfer.count
            && unbounced is Ok,
{
}

/// A bounced read that succeeds has written to guest memory every byte of its buffer, all of the
/// destination is mapped, and all of it is marked dirty.
pub proof fn law_bounced_read_delivers(
    read: BouncedTransfer,
    regions: Seq<(u64, u64)>,
    answer: Result<(), std::io::Error>,
)
    requires
        read.wf(),
        read.transfer.direction == Direction::Read,
        sync_io::bounced_outcome(read.transfer, regions, answer) is Ok,
    ensures
        read.moved_accesses(regions, answer) == seq![
            GuestAccess::Write { addr: read.transfer.addr, data: read.buf@ },
        ],
        read.moved_dirty(regions, answer) == memory::address_range(
            read.transfer.addr.0 as int,
            read.transfer.count as nat,
        ),
        forall|a: int|
            read.transfer.addr.0 <= a < read.transfer.addr.0 + read.transfer.count
                ==> memory::is_mapped(regions, a),
{
    law_copy_succeeds_iff_mapped(regions, read.transfer.addr, read.transfer.count as nat);
    assert(read.buf@.take(read.transfer.count as int) =~= read.buf@);
}

/// Both engines deliver a bounced read alike: where the ring moved all bytes, completing the
/// request writes to guest memory and marks dirty what the blocking transfer does. The request
/// has the range marked once more, after the bytes are there.
pub proof fn law_engines_deliver_alike<R>(
    read: BouncedTransfer,
    wrapped: WrappedRequest<R>,
    regions: Seq<(u64, u64)>,
)
    requires
        read.wf(),
        read.transfer.direction == Direction::Read,
        wrapped.addr == Some(read.transfer.addr),
        wrapped.bounce_buf matches Some(b) && b@ == read.buf@,
    ensures
        wrapped.completion_accesses(regions, read.transfer.count) == read.moved_accesses(
            regions,
            Ok(()),
        ).push(
            GuestAccess::Mark {
                addr: read.transfer.addr,
                len: memory::mapped_prefix(
                    regions,
                    read.transfer.addr.0 as int,
                    read.transfer.count as nat,
                ),
            },
        ),
        wrapped.completion_dirty(regions, read.transfer.count) == read.moved_dirty(
            regions,
            Ok(()),
        ),
{
}

/// What the engine can answer to the preparation of a submission: a bounced or unbounced read or
/// write, accepted or refused.
pub open spec fn is_prepared<R, E>(
    op: Result<Operation<WrappedRequest<R>>, RequestError<R, AsyncIoError<E>>>,
    req: R,
) -> bool {
    ||| exists|offset: u64, addr: GuestAddress, count: u32, bounce: Option<AlignedBuf>|
        op == #[trigger] async_io::bounced_read::<R, E>(offset, addr, count, req, bounce)
    ||| exists|
        offset: u64,
        addr: GuestAddress,
        count: u32,
        slice: Result<usize, GuestMemoryError>,
    |
        op == #[trigger] async_io::unbounced_read::<R, E>(offset, addr, count, req, slice)
    ||| exists|offset: u64, count: u32, bounce: Result<AlignedBuf, AsyncIoError<E>>|
        op == #[trigger] async_io::bounced_write::<R, E>(offset, count, req, bounce)
    ||| exists|offset: u64, count: u32, slice: Result<usize, GuestMemoryError>|
        op == #[trigger] async_io::unbounced_write::<R, E>(offset, count, req, slice)
    ||| op == Ok::<_, RequestError<R, AsyncIoError<E>>>(async_io::flush_operation(req))
}

/// No request is lost on the way into the ring: a refusal hands it back, and a submission carries
/// it.
pub proof fn law_request_is_kept<R, E>(
    op: Result<Operation<WrappedRequest<R>>, RequestError<R, AsyncIoError<E>>>,
    req: R,
)
    requires
        is_prepared(op, req),
    ensures
        match op {
            Ok(o) => o.user_data.req == req,
            Err(e) => e.req == req,
        },
{
}

/// Every submission that the engine prepares is one that its ring accepts: the operation is
/// allowed, and the file is registered.
pub proof fn law_submissions_are_allowed<F, R, E>(
    setup: RingSetup<'_, F>,
    file: &F,
    completion_fd: i32,
    op: Operation<WrappedRequest<R>>,
    req: R,
)
    requires
        async_io::is_ring_for(setup, file, completion_fd),
        is_prepared::<R, E>(Ok(op), req),
    ensures
        setup.restrictions@.contains(Restriction::AllowOpCode(op.opcode)),
        op.fd < setup.files@.len(),
{
    assert(setup.restrictions@[1] == Restriction::AllowOpCode(OpCode::Read));
    assert(setup.restrictions@[2] == Restriction::AllowOpCode(OpCode::Write));
    assert(setup.restrictions@[3] == Restriction::AllowOpCode(OpCode::Fsync));
}

/// A submission names a guest address exactly if it is a read: only a read has something to mark
/// dirty when it completes.
pub proof fn law_only_reads_name_a_guest_address<R, E>(
    op: Operation<WrappedRequest<R>>,
    req: R,
)
    requires
        is_prepared::<R, E>(Ok(op), req),
    ensures
        op.user_data.addr is Some <==> op.opcode == OpCode::Read,
{
}

/// A bounced submission moves its bytes within memory that its request keeps alive: the address
/// that it names is where the bytes of the request's buffer lie, and that address is aligned.
pub proof fn law_bounced_submission_stays_in_its_buffer<R, E>(
    offset: u64,
    addr: GuestAddress,
    count: u32,
    req: R,
    bounce: AlignedBuf,
)
    requires
        bounce.fits(count),
    ensures
        async_io::bounced_read::<R, E>(offset, addr, count, req, Some(bounce)) matches Ok(op)
            && op.addr == Some(bounce.ptr()) && op.len == Some(count) && op.user_data.bounce_buf
            == Some(bounce),
        async_io::bounced_write::<R, E>(offset, count, req, Ok(bounce)) matches Ok(op) && op.addr
            == Some(bounce.ptr()) && op.len == Some(count) && op.user_data.bounce_buf == Some(
            bounce,
        ),
        bounce.owns(bounce.ptr() as int, count as nat),
        bounce.memory_at(bounce.ptr() as int, count as nat) == bounce@,
        bounce.ptr() as int % DIRECT_IO_ALIGN as int == 0,
{
    buffer::lemma_bytes_lie_at_ptr(bounce, count as nat);
    assert(bounce@.take(count as int) =~= bounce@);
}

/// The bytes that a bounced submission gives to the ring: those that lie at the address it names,
/// in the memory that its request keeps.
pub open spec fn submitted_bytes<R>(op: Operation<WrappedRequest<R>>) -> Seq<u8>
    recommends
        op.user_data.bounce_buf is Some,
        op.addr is Some,
        op.len is Some,
{
    op.user_data.bounce_buf->0.memory_at(op.addr->0 as int, op.len->0 as nat)
}

/// A bounced write is a snapshot: the ring is given the bytes that guest memory held when the
/// write was prepared, from memory that the request keeps for itself. What guest memory holds
/// when the ring gets to it plays no part.
pub proof fn law_bounced_write_is_a_snapshot<R, E>(
    offset: u64,
    addr: GuestAddress,
    count: u32,
    req: R,
    bounce: AlignedBuf,
    held: spec_fn(int) -> u8,
)
    requires
        bounce.fits(count),
        contents::agrees(held, GuestAccess::Read { addr, data: bounce@ }),
    ensures
        async_io::bounced_write::<R, E>(offset, count, req, Ok(bounce)) matches Ok(op) && ({
            &&& submitted_bytes(op) == contents::bytes_of(held, addr.0 as int, count as nat)
            &&& op.user_data.bounce_buf matches Some(kept)
            &&& kept.owns(op.addr->0 as int, op.len->0 as nat)
            &&& op.offset == Some(offset)
            &&& op.len == Some(count)
        }),
{
    law_bounced_submission_stays_in_its_buffer::<R, E>(offset, addr, count, req, bounce);
}

/// Writes and flushes leave guest memory alone when they complete, whatever the count.
pub proof fn law_write_completion_leaves_guest_memory<R, E>(
    offset: u64,
    count: u32,
    req: R,
    bounce: Result<AlignedBuf, AsyncIoError<E>>,
    slice: Result<usize, GuestMemoryError>,
    regions: Seq<(u64, u64)>,
    completed: u32,
)
    ensures
        async_io::bounced_write::<R, E>(offset, count, req, bounce) matches Ok(op)
            ==> op.user_data.accepts(completed) && op.user_data.completion_accesses(
            regions,
            completed,
        ) == Seq::<GuestAccess>::empty() && op.user_data.completion_dirty(regions, completed)
            == Set::<int>::empty(),
        async_io::unbounced_write::<R, E>(offset, count, req, slice) matches Ok(op)
            ==> op.user_data.accepts(completed) && op.user_data.completion_accesses(
            regions,
            completed,
        ) == Seq::<GuestAccess>::empty() && op.user_data.completion_dirty(regions, completed)
            == Set::<int>::empty(),
        async_io::flush_operation(req).user_data.accepts(completed),
        async_io::flush_operation(req).user_data.completion_accesses(regions, completed)
            == Seq::<GuestAccess>::empty(),
        async_io::flush_operation(req).user_data.completion_dirty(regions, completed) == Set::<
            int,
        >::empty(),
{
}

/// A bounced read can complete with any count up to what it asked for, whatever bytes its buffer
/// has got by then. Where the destination is mapped, exactly the bytes that now lie at the address
/// of the submission are written to guest memory, as many as were moved, and exactly their
/// addresses are marked dirty.
pub proof fn law_bounced_read_completion<R, E>(
    offset: u64,
    addr: GuestAddress,
    count: u32,
    req: R,
    bounce: AlignedBuf,
    filled: AlignedBuf,
    regions: Seq<(u64, u64)>,
    completed: u32,
)
    requires
        bounce.fits(count),
        filled.fits(count),
        filled.ptr() == bounce.ptr(),
        completed <= count,
    ensures
        async_io::bounced_read::<R, E>(offset, addr, count, req, Some(bounce)) matches Ok(op) && ({
            let back = WrappedRequest { bounce_buf: Some(filled), ..op.user_data };
            &&& back.accepts(completed)
            &&& back.req == req
            &&& memory::copy_outcome(regions, addr, completed as nat) is Ok ==> {
                &&& back.completion_outcome(regions, completed) is Ok
                &&& back.completion_accesses(regions, completed) == seq![
                    GuestAccess::Write {
                        addr,
                        data: filled.memory_at(op.addr->0 as int, completed as nat),
                    },
                    GuestAccess::Mark { addr, len: completed as nat },
                ]
                &&& back.completion_dirty(regions, completed) == memory::address_range(
                    addr.0 as int,
                    completed as nat,
                )
            }
        }),
{
    buffer::lemma_bytes_lie_at_ptr(filled, completed as nat);
}

/// A read straight into guest memory copies nothing when it completes, and marks dirty exactly the
/// addresses of the bytes moved.
pub proof fn law_unbounced_read_completion<R, E>(
    offset: u64,
    addr: GuestAddress,
    count: u32,
    req: R,
    host: usize,
    regions: Seq<(u64, u64)>,
    completed: u32,
)
    requires
        memory::slice_failure(regions, addr, count as nat) is None,
        completed <= count,
    ensures
        async_io::unbounced_read::<R, E>(offset, addr, count, req, Ok(host)) matches Ok(op) && ({
            &&& op.user_data.accepts(completed)
            &&& op.user_data.completion_accesses(regions, completed)
                == seq![GuestAccess::Mark { addr, len: completed as nat }]
            &&& op.user_data.completion_dirty(regions, completed) == memory::address_range(
                addr.0 as int,
                completed as nat,
            )
        }),
{
    let i = choose|i: int|
        0 <= i < regions.len() && memory::in_region(#[trigger] regions[i], addr.0 as int) && addr.0
            + count <= regions[i].0 + regions[i].1;
    assert(memory::in_one_region(regions, addr.0 as int, completed as nat)) by {
        assert(memory::in_region(regions[i], addr.0 as int));
    }
    law_bouncing_accepts_every_slice(regions, addr, completed as nat);
}

/// Where a drain stands after the ring has given the answers `pops`, in this order.
pub open spec fn after_pops<T, E>(step: DrainStep<E>, pops: Seq<Result<Option<T>, E>>) -> DrainStep<
    E,
>
    decreases pops.len(),
{
    if pops.len() == 0 {
        step
    } else {
        match step {
            DrainStep::Pop(drain) => after_pops(drain.after_pop(pops[0]), pops.drop_first()),
            _ => step,
        }
    }
}

/// A drain that drops completions goes on for as long as there are any, and ends at the first
/// answer that brings none: with what is left to do if the queue is empty, with the ring's error
/// if the ring failed. What the ring would answer after that does not matter.
pub proof fn law_drain_ends_at_first_gap<T, E>(
    drain: Drain,
    pops: Seq<Result<Option<T>, E>>,
    first: int,
)
    requires
        0 <= first < pops.len(),
        forall|i: int| 0 <= i < first ==> (#[trigger] pops[i]) matches Ok(Some(_)),
        !(pops[first] matches Ok(Some(_))),
    ensures
        after_pops(DrainStep::Pop(drain), pops) == match pops[first] {
            Ok(_) => drain.settled::<E>(),
            Err(error) => DrainStep::Done(Err(AsyncIoError::IoUring(error))),
        },
    decreases first,
{
    reveal_with_fuel(after_pops, 2);
    if first > 0 {
        let rest = pops.drop_first();
        assert(pops[0] matches Ok(Some(_)));
        assert(rest[first - 1] == pops[first]);
        assert forall|i: int| 0 <= i < first - 1 implies (#[trigger] rest[i]) matches Ok(
            Some(_),
        ) by {
            assert(rest[i] == pops[i + 1]);
        }
        law_drain_ends_at_first_gap(drain, rest, first - 1);
    }
}

/// A drain keeps every completion unless asked to drop them, and syncs the file only if asked to
/// and only after the ring has answered well.
pub proof fn law_drain_does_what_was_asked<T, E>(
    drain: Drain,
    waited: Result<u32, E>,
    popped: Result<Option<T>, E>,
)
    ensures
        drain.after_wait(waited) is Pop <==> drain.discard_cqes && waited is Ok,
        drain.after_wait(waited) is SyncAll <==> drain.flush && !drain.discard_cqes
            && waited is Ok,
        drain.after_pop(popped) is SyncAll <==> drain.flush && popped matches Ok(None),
{
}

/// `full` is the blocking read `step` once the file has put `data` where the step asked for it.
pub open spec fn file_gave(step: TransferStep, data: Seq<u8>, full: TransferStep) -> bool {
    match (step, full) {
        (TransferStep::Bounced(asked), TransferStep::Bounced(got)) => {
            &&& got.wf()
            &&& got.transfer == asked.transfer
            &&& got.buf@ == data
        },
        (TransferStep::Unbounced(asked), TransferStep::Unbounced(got)) => got == asked,
        _ => false,
    }
}

/// The bytes that the blocking write `step` hands to the file while guest memory holds `held`.
pub open spec fn file_gets(step: TransferStep, held: spec_fn(int) -> u8) -> Seq<u8> {
    match step {
        TransferStep::Bounced(write) => write.buf@,
        TransferStep::Unbounced(write) => contents::bytes_of(
            held,
            write.transfer.addr.0 as int,
            write.transfer.count as nat,
        ),
        TransferStep::Done(_) => Seq::empty(),
    }
}

/// The outcome of a blocking transfer whose file operation went well.
pub open spec fn outcome_of(step: TransferStep, regions: Seq<(u64, u64)>) -> Result<
    u32,
    SyncIoError,
> {
    match step {
        TransferStep::Bounced(t) => sync_io::bounced_outcome(t.transfer, regions, Ok(())),
        TransferStep::Unbounced(t) => sync_io::unbounced_outcome(t.transfer, Ok(())),
        TransferStep::Done(outcome) => outcome,
    }
}

/// What guest memory holds after the blocking read `full`, for which the file gave `data`. A read
/// that is not bounced has the file put its bytes into guest memory itself.
pub open spec fn guest_after(
    full: TransferStep,
    regions: Seq<(u64, u64)>,
    held: spec_fn(int) -> u8,
    data: Seq<u8>,
) -> spec_fn(int) -> u8 {
    match full {
        TransferStep::Bounced(read) => contents::after_all(
            held,
            read.moved_accesses(regions, Ok(())),
        ),
        TransferStep::Unbounced(read) => contents::overwritten(
            held,
            read.transfer.addr.0 as int,
            data,
        ),
        TransferStep::Done(_) => held,
    }
}

/// A blocking read that succeeds puts the bytes that the file gave into guest memory at its
/// address, and changes nothing else there.
pub proof fn law_read_puts_the_file_bytes_there(
    read: Transfer,
    regions: Seq<(u64, u64)>,
    before: Seq<GuestAccess>,
    after: Seq<GuestAccess>,
    step: TransferStep,
    full: TransferStep,
    held: spec_fn(int) -> u8,
    data: Seq<u8>,
)
    requires
        read.direction == Direction::Read,
        read.goes_on(regions, before, after, step),
        data.len() == read.count,
        file_gave(step, data, full),
        outcome_of(full, regions) is Ok,
    ensures
        outcome_of(full, regions) == Ok::<u32, SyncIoError>(read.count),
        guest_after(full, regions, held, data) == contents::overwritten(
            held,
            read.addr.0 as int,
            data,
        ),
{
    match full {
        TransferStep::Bounced(got) => {
            law_bounced_read_delivers(got, regions, Ok(()));
            contents::lemma_after_write(
                held,
                GuestAccess::Write { addr: read.addr, data },
                GuestAccess::Mark { addr: read.addr, len: 0 },
            );
        },
        _ => {},
    }
}

/// Whether a bounce buffer is used never shows in the data: two blocking reads of the same bytes
/// of a file to the same address, both of which succeed, return the same count and leave guest
/// memory alike everywhere.
pub proof fn law_bouncing_never_shows_in_a_read(
    one: Transfer,
    other: Transfer,
    regions: Seq<(u64, u64)>,
    logs: (Seq<GuestAccess>, Seq<GuestAccess>, Seq<GuestAccess>, Seq<GuestAccess>),
    steps: (TransferStep, TransferStep),
    fulls: (TransferStep, TransferStep),
    held: spec_fn(int) -> u8,
    file: spec_fn(int) -> u8,
)
    requires
        one.direction == Direction::Read,
        other.direction == Direction::Read,
        one.offset == other.offset,
        one.addr == other.addr,
        one.count == other.count,
        one.goes_on(regions, logs.0, logs.1, steps.0),
        other.goes_on(regions, logs.2, logs.3, steps.1),
        file_gave(
            steps.0,
            contents::bytes_of(file, one.offset as int, one.count as nat),
            fulls.0,
        ),
        file_gave(
            steps.1,
            contents::bytes_of(file, other.offset as int, other.count as nat),
            fulls.1,
        ),
        outcome_of(fulls.0, regions) is Ok,
        outcome_of(fulls.1, regions) is Ok,
    ensures
        outcome_of(fulls.0, regions) == Ok::<u32, SyncIoError>(one.count),
        outcome_of(fulls.1, regions) == Ok::<u32, SyncIoError>(one.count),
        ({
            let data = contents::bytes_of(file, one.offset as int, one.count as nat);
            guest_after(fulls.0, regions, held, data) == guest_after(fulls.1, regions, held, data)
        }),
{
    let data = contents::bytes_of(file, one.offset as int, one.count as nat);
    law_read_puts_the_file_bytes_there(
        one,
        regions,
        logs.0,
        logs.1,
        steps.0,
        fulls.0,
        held,
        data,
    );
    law_read_puts_the_file_bytes_there(
        other,
        regions,
        logs.2,
        logs.3,
        steps.1,
        fulls.1,
        held,
        data,
    );
}

/// A blocking write hands the file the bytes that guest memory holds at its address, bounced or
/// not.
pub proof fn law_write_takes_the_guest_bytes(
    write: Transfer,
    regions: Seq<(u64, u64)>,
    before: Seq<GuestAccess>,
    after: Seq<GuestAccess>,
    step: TransferStep,
    held: spec_fn(int) -> u8,
)
    requires
        write.direction == Direction::Write,
        write.goes_on(regions, before, after, step),
        step !is Done,
        contents::agrees(held, after.last()),
    ensures
        file_gets(step, held) == contents::bytes_of(
            held,
            write.addr.0 as int,
            write.count as nat,
        ),
        outcome_of(step, regions) == Ok::<u32, SyncIoError>(write.count),
{
}

/// A read gives back what a write took: where a file that nobody else touches keeps what was
/// written to it, a blocking read at the same offset, of as many bytes, puts at its own address
/// the bytes that the write found at its. Either of the two may be bounced.
pub proof fn law_read_gives_back_what_a_write_took(
    write: Transfer,
    write_regions: Seq<(u64, u64)>,
    write_logs: (Seq<GuestAccess>, Seq<GuestAccess>),
    write_step: TransferStep,
    written_from: spec_fn(int) -> u8,
    read: Transfer,
    read_regions: Seq<(u64, u64)>,
    read_logs: (Seq<GuestAccess>, Seq<GuestAccess>),
    read_step: TransferStep,
    read_full: TransferStep,
    read_to: spec_fn(int) -> u8,
    file: spec_fn(int) -> u8,
)
    requires
        write.direction == Direction::Write,
        read.direction == Direction::Read,
        read.offset == write.offset,
        read.count == write.count,
        write.goes_on(write_regions, write_logs.0, write_logs.1, write_step),
        write_step !is Done,
        contents::agrees(written_from, write_logs.1.last()),
        read.goes_on(read_regions, read_logs.0, read_logs.1, read_step),
        file_gave(
            read_step,
            contents::bytes_of(
                contents::overwritten(
                    file,
                    write.offset as int,
                    file_gets(write_step, written_from),
                ),
                read.offset as int,
                read.count as nat,
            ),
            read_full,
        ),
        outcome_of(read_full, read_regions) is Ok,
    ensures
        ({
            let data = contents::bytes_of(
                contents::overwritten(
                    file,
                    write.offset as int,
                    file_gets(write_step, written_from),
                ),
                read.offset as int,
                read.count as nat,
            );
            contents::bytes_of(
                guest_after(read_full, read_regions, read_to, data),
                read.addr.0 as int,
                read.count as nat,
            ) == contents::bytes_of(written_from, write.addr.0 as int, write.count as nat)
        }),
{
    let taken = file_gets(write_step, written_from);
    law_write_takes_the_guest_bytes(
        write,
        write_regions,
        write_logs.0,
        write_logs.1,
        write_step,
        written_from,
    );
    contents::lemma_overwritten_is_held(file, write.offset as int, taken);
    law_read_puts_the_file_bytes_there(
        read,
        read_regions,
        read_logs.0,
        read_logs.1,
        read_step,
        read_full,
        read_to,
        taken,
    );
    contents::lemma_overwritten_is_held(read_to, read.addr.0 as int, taken);
}

/// A request on its way into the ring: how it was prepared, and what the ring answered to the
/// submission, if there was one.
pub struct Push<R, E> {
    /// The request.
    pub req: R,
    /// What the engine prepared for it.
    pub prepared: Result<Operation<WrappedRequest<R>>, RequestError<R, AsyncIoError<E>>>,
    /// What the ring answered.
    pub answer: Result<(), (E, WrappedRequest<R>)>,
}

impl<R, E> Push<R, E> {
    /// The engine prepared the request, and a ring that refused handed back the user data.
    pub open spec fn wf(self) -> bool {
        &&& is_prepared(self.prepared, self.req)
        &&& (self.prepared matches Ok(op) && self.answer matches Err((_, data))
            ==> data.req == op.user_data.req)
    }

    /// What the caller of the engine is told.
    pub open spec fn outcome(self) -> Result<(), RequestError<R, AsyncIoError<E>>> {
        match self.prepared {
            Ok(_) => async_io::push_outcome(self.answer),
            Err(error) => Err(error),
        }
    }
}

/// The requests whose callers were told that they are accepted.
pub open spec fn accepted<R, E>(pushes: Seq<Push<R, E>>) -> Multiset<R>
    decreases pushes.len(),
{
    if pushes.len() == 0 {
        Multiset::empty()
    } else if pushes.last().outcome() is Ok {
        accepted(pushes.drop_last()).insert(pushes.last().req)
    } else {
        accepted(pushes.drop_last())
    }
}

/// The requests inside the submissions that the ring took.
pub open spec fn in_flight<R, E>(pushes: Seq<Push<R, E>>) -> Multiset<R>
    decreases pushes.len(),
{
    if pushes.len() == 0 {
        Multiset::empty()
    } else {
        match (pushes.last().prepared, pushes.last().answer) {
            (Ok(op), Ok(_)) => in_flight(pushes.drop_last()).insert(op.user_data.req),
            _ => in_flight(pushes.drop_last()),
        }
    }
}

/// Whether `pops` are answers of a drained ring that does not fail and has the requests `left` to
/// hand out: one of them at a time, and nothing only once none is left.
pub open spec fn hands_out<R, E>(
    left: Multiset<R>,
    pops: Seq<Result<Option<Cqe<WrappedRequest<R>>>, E>>,
) -> bool
    decreases pops.len(),
{
    pops.len() == 0 || match pops[0] {
        Ok(Some(cqe)) => {
            &&& left.contains(cqe.user_data.req)
            &&& hands_out(left.remove(cqe.user_data.req), pops.drop_first())
        },
        Ok(None) => left.len() == 0 && hands_out(left, pops.drop_first()),
        Err(_) => false,
    }
}

/// The requests that popping gave back to the caller.
pub open spec fn returned<R, E>(
    pops: Seq<Result<Option<Cqe<WrappedRequest<R>>>, E>>,
) -> Multiset<R>
    decreases pops.len(),
{
    if pops.len() == 0 {
        Multiset::empty()
    } else {
        match async_io::pop_outcome(pops[0]) {
            Ok(Some(cqe)) => returned(pops.drop_first()).insert(cqe.user_data),
            _ => returned(pops.drop_first()),
        }
    }
}

/// The ring holds exactly the requests that were reported as accepted; a request that was not is
/// back with its caller.
pub proof fn law_ring_holds_what_was_accepted<R, E>(pushes: Seq<Push<R, E>>)
    requires
        forall|i: int| 0 <= i < pushes.len() ==> (#[trigger] pushes[i]).wf(),
    ensures
        in_flight(pushes) == accepted(pushes),
        forall|i: int|
            0 <= i < pushes.len() ==> ((#[trigger] pushes[i]).outcome() matches Err(refused)
                ==> refused.req == pushes[i].req),
    decreases pushes.len(),
{
    assert forall|i: int| 0 <= i < pushes.len() implies (
    (#[trigger] pushes[i]).outcome() matches Err(refused) ==> refused.req == pushes[i].req) by {
        law_request_is_kept(pushes[i].prepared, pushes[i].req);
    }
    if pushes.len() > 0 {
        let earlier = pushes.drop_last();
        assert forall|i: int| 0 <= i < earlier.len() implies (#[trigger] earlier[i]).wf() by {
            assert(earlier[i] == pushes[i]);
        }
        law_ring_holds_what_was_accepted(earlier);
        assert(pushes[pushes.len() - 1].wf());
        law_request_is_kept(pushes.last().prepared, pushes.last().req);
    }
}

/// Popping a drained ring once more than it has requests left gives each of them back exactly
/// once, and after that nothing.
pub proof fn law_pops_empty_the_ring<R, E>(
    left: Multiset<R>,
    pops: Seq<Result<Option<Cqe<WrappedRequest<R>>>, E>>,
)
    requires
        hands_out(left, pops),
        pops.len() == left.len() + 1,
    ensures
        forall|i: int|
            0 <= i < left.len() ==> async_io::pop_outcome(#[trigger] pops[i]) matches Ok(Some(_)),
        async_io::pop_outcome(pops[left.len() as int]) == Ok::<Option<Cqe<R>>, AsyncIoError<E>>(
            None,
        ),
        returned(pops) == left,
    decreases pops.len(),
{
    reveal_with_fuel(returned, 2);
    let rest = pops.drop_first();
    if left.len() > 0 {
        let req = pops[0]->Ok_0->0.user_data.req;
        law_pops_empty_the_ring(left.remove(req), rest);
        assert forall|i: int| 0 <= i < left.len() implies async_io::pop_outcome(
            #[trigger] pops[i],
        ) matches Ok(Some(_)) by {
            if i > 0 {
                assert(rest[i - 1] == pops[i]);
            }
        }
        assert(rest[left.len() - 1] == pops[left.len() as int]);
        assert(left.remove(req).insert(req) =~= left);
    } else {
        assert(left =~= Multiset::empty()) by {
            if exists|r: R| left.contains(r) {
                let r = choose|r: R| left.contains(r);
                assert(left.remove(r).insert(r) =~= left);
            }
        }
        assert(rest.len() == 0);
        assert(pops[0] matches Ok(None)) by {
            if let Ok(Some(cqe)) = pops[0] {
                assert(left.contains(cqe.user_data.req));
            }
        }
    }
}

/// Each accepted request comes back exactly once, and a refused one never: however requests were
/// pushed into a fresh engine, popping the drained ring once more than there were accepted ones
/// gives back those, in some order, and then nothing.
pub proof fn law_accepted_requests_come_back_once<R, E>(
    pushes: Seq<Push<R, E>>,
    pops: Seq<Result<Option<Cqe<WrappedRequest<R>>>, E>>,
)
    requires
        forall|i: int| 0 <= i < pushes.len() ==> (#[trigger] pushes[i]).wf(),
        hands_out(in_flight(pushes), pops),
        pops.len() == accepted(pushes).len() + 1,
    ensures
        forall|i: int|
            0 <= i < accepted(pushes).len() ==> async_io::pop_outcome(
                #[trigger] pops[i],
            ) matches Ok(Some(_)),
        async_io::pop_outcome(pops[accepted(pushes).len() as int]) == Ok::<
            Option<Cqe<R>>,
            AsyncIoError<E>,
        >(None),
        returned(pops) == accepted(pushes),
{
    law_ring_holds_what_was_accepted(pushes);
    law_pops_empty_the_ring(in_flight(pushes), pops);
}

} // verus!
