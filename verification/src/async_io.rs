//! The engine that moves data between a file and guest memory through an io_uring.
//!
//! The engine prepares submissions and interprets what the ring answers. Whoever owns the ring
//! hands the submissions to it and the answers back.

use crate::buffer;
use crate::buffer::AlignedBuf;
use crate::buffer::DIRECT_IO_ALIGN;
use crate::buffer::bounces;
use crate::memory;
use crate::memory::GuestAccess;
use crate::memory::GuestAddress;
use crate::memory::GuestMemoryError;
use crate::memory::GuestMemoryMmap;
use crate::uring;
use crate::uring::Cqe;
use crate::uring::IO_URING_NUM_ENTRIES;
use crate::uring::OpCode;
use crate::uring::Operation;
use crate::uring::Restriction;
use crate::uring::RingSetup;
use vstd::prelude::*;
use vstd::slice::slice_subrange;

verus! {

/// Why an operation of the engine failed. `E` is the ring's own error.
#[derive(Debug)]
pub enum AsyncIoError<E> {
    /// A file operation failed.
    IO(std::io::Error),
    /// The ring failed.
    IoUring(E),
    /// Submitting failed.
    Submit(std::io::Error),
    /// The file could not be synced to its device.
    SyncAll(std::io::Error),
    /// The completion event could not be created.
    EventFd(std::io::Error),
    /// Guest memory could not be accessed.
    GuestMemory(GuestMemoryError),
    /// No aligned bounce buffer could be allocated.
    BounceBufferAlloc,
}

/// A request that was not accepted, and why.
#[derive(Debug)]
pub struct RequestError<R, E> {
    /// The request, handed back.
    pub req: R,
    /// The reason.
    pub error: E,
}

/// A request in flight, with what its completion needs.
#[derive(Debug)]
pub struct WrappedRequest<R> {
    /// Where in guest memory the data of a read goes: to be marked dirty on completion.
    pub addr: Option<GuestAddress>,
    /// The request.
    pub req: R,
    /// The bounce buffer, which has to outlive the operation. On completion of a read its bytes
    /// are copied to guest memory.
    pub bounce_buf: Option<AlignedBuf>,
}

impl<R> WrappedRequest<R> {
    /// The bounce buffer, if there is one, is intact.
    pub open spec fn wf(self) -> bool {
        self.bounce_buf matches Some(b) ==> b.wf()
    }

    /// Whether the request can complete with `count` bytes: a bounced read cannot have moved more
    /// than its buffer holds.
    pub open spec fn accepts(self, count: u32) -> bool {
        self.addr is Some && self.bounce_buf is Some ==> count <= self.bounce_buf->0@.len()
    }

    /// The accesses to guest memory that completing the request with `count` bytes makes.
    pub open spec fn completion_accesses(self, regions: Seq<(u64, u64)>, count: u32) -> Seq<
        GuestAccess,
    > {
        match self.addr {
            Some(addr) => {
                let moved = memory::mapped_prefix(regions, addr.0 as int, count as nat);
                let mark = GuestAccess::Mark { addr, len: moved };
                match self.bounce_buf {
                    Some(bounce) => seq![
                        GuestAccess::Write { addr, data: bounce@.take(moved as int) },
                        mark,
                    ],
                    None => seq![mark],
                }
            },
            None => Seq::empty(),
        }
    }

    /// What the copy of a bounced read to guest memory returns on completion. Any other request
    /// has nothing to copy.
    pub open spec fn completion_outcome(self, regions: Seq<(u64, u64)>, count: u32) -> Result<
        (),
        GuestMemoryError,
    > {
        match (self.addr, self.bounce_buf) {
            (Some(addr), Some(_)) => memory::copy_outcome(regions, addr, count as nat),
            _ => Ok(()),
        }
    }

    /// The addresses that completing the request with `count` bytes marks dirty.
    pub open spec fn completion_dirty(self, regions: Seq<(u64, u64)>, count: u32) -> Set<int> {
        match self.addr {
            Some(addr) => memory::address_range(
                addr.0 as int,
                memory::mapped_prefix(regions, addr.0 as int, count as nat),
            ),
            None => Set::empty(),
        }
    }

    /// A request whose completion leaves guest memory alone.
    pub fn new(req: R) -> (wrapped: WrappedRequest<R>)
        ensures
            wrapped == (WrappedRequest { addr: None, req, bounce_buf: None }),
    {
        WrappedRequest { addr: None, req, bounce_buf: None }
    }

    /// A read straight into guest memory at `addr`.
    pub fn new_with_dirty_tracking(addr: GuestAddress, req: R) -> (wrapped: WrappedRequest<R>)
        ensures
            wrapped == (WrappedRequest { addr: Some(addr), req, bounce_buf: None }),
    {
        WrappedRequest { addr: Some(addr), req, bounce_buf: None }
    }

    /// A read into `bounce_buf`, whose bytes belong in guest memory at `addr`.
    pub fn new_with_bounce_buf(addr: GuestAddress, req: R, bounce_buf: AlignedBuf) -> (wrapped:
        WrappedRequest<R>)
        ensures
            wrapped == (WrappedRequest { addr: Some(addr), req, bounce_buf: Some(bounce_buf) }),
    {
        WrappedRequest { addr: Some(addr), req, bounce_buf: Some(bounce_buf) }
    }

    /// Decides whether the request can complete with `count` bytes.
    pub fn can_complete(&self, count: u32) -> (b: bool)
        requires
            self.wf(),
        ensures
            b == self.accepts(count),
    {
        match (&self.addr, &self.bounce_buf) {
            (Some(_), Some(bounce)) => count as usize <= bounce.len(),
            _ => true,
        }
    }

    /// Completes the request, of which `count` bytes were moved.
    ///
    /// A bounced read has its first `count` bytes copied to guest memory, as far as it is mapped;
    /// after that any read has the range marked dirty. The request comes back whether or not all
    /// of it was mapped; `complete` says besides how the copy went.
    pub fn mark_dirty_mem_and_unwrap(self, mem: &mut GuestMemoryMmap, count: u32) -> (req: R)
        requires
            old(mem).wf(),
            self.wf(),
            self.accepts(count),
        ensures
            req == self.req,
            final(mem).regions() == old(mem).regions(),
            final(mem).accesses() == old(mem).accesses() + self.completion_accesses(
                old(mem).regions(),
                count,
            ),
            final(mem).dirty() == old(mem).dirty().union(
                self.completion_dirty(old(mem).regions(), count),
            ),
    {
        let (req, _) = self.complete(mem, count);
        req
    }

    /// As `mark_dirty_mem_and_unwrap`, with the outcome of the copy to guest memory beside the
    /// request.
    pub fn complete(self, mem: &mut GuestMemoryMmap, count: u32) -> (done: (
        R,
        Result<(), GuestMemoryError>,
    ))
        requires
            old(mem).wf(),
            self.wf(),
            self.accepts(count),
        ensures
            done.0 == self.req,
            done.1 == self.completion_outcome(old(mem).regions(), count),
            final(mem).regions() == old(mem).regions(),
            final(mem).accesses() == old(mem).accesses() + self.completion_accesses(
                old(mem).regions(),
                count,
            ),
            final(mem).dirty() == old(mem).dirty().union(
                self.completion_dirty(old(mem).regions(), count),
            ),
    {
        let mut copied: Result<(), GuestMemoryError> = Ok(());
        if let Some(addr) = self.addr {
            if let Some(bounce) = &self.bounce_buf {
                let data = slice_subrange(bounce.as_slice(), 0, count as usize);
                proof {
                    memory::lemma_prefix_bounded(
                        mem.regions(),
                        addr.0 as int,
                        count as nat,
                    );
                    let n = memory::mapped_prefix(
                        mem.regions(),
                        addr.0 as int,
                        count as nat,
                    ) as int;
                    assert(data@.take(n) =~= bounce@.take(n));
                }
                copied = mem.write_slice(data, addr);
            }
            mem.mark_dirty(addr, count as usize);
        }
        (self.req, copied)
    }
}

/// The submission that reads into `bounce`, or the refusal if there is no buffer.
pub open spec fn bounced_read<R, E>(
    offset: u64,
    addr: GuestAddress,
    count: u32,
    req: R,
    bounce: Option<AlignedBuf>,
) -> Result<Operation<WrappedRequest<R>>, RequestError<R, AsyncIoError<E>>> {
    match bounce {
        Some(b) => Ok(
            Operation {
                fd: 0,
                opcode: OpCode::Read,
                addr: Some(b.ptr()),
                len: Some(count),
                offset: Some(offset),
                user_data: WrappedRequest { addr: Some(addr), req, bounce_buf: Some(b) },
            },
        ),
        None => Err(RequestError { req, error: AsyncIoError::BounceBufferAlloc }),
    }
}

/// The submission that reads into guest memory at `slice`, or the refusal if there is no slice.
pub open spec fn unbounced_read<R, E>(
    offset: u64,
    addr: GuestAddress,
    count: u32,
    req: R,
    slice: Result<usize, GuestMemoryError>,
) -> Result<Operation<WrappedRequest<R>>, RequestError<R, AsyncIoError<E>>> {
    match slice {
        Ok(host) => Ok(
            Operation {
                fd: 0,
                opcode: OpCode::Read,
                addr: Some(host),
                len: Some(count),
                offset: Some(offset),
                user_data: WrappedRequest { addr: Some(addr), req, bounce_buf: None },
            },
        ),
        Err(error) => Err(RequestError { req, error: AsyncIoError::GuestMemory(error) }),
    }
}

/// The submission that writes from `bounce`, or the refusal if the buffer could not be filled.
pub open spec fn bounced_write<R, E>(
    offset: u64,
    count: u32,
    req: R,
    bounce: Result<AlignedBuf, AsyncIoError<E>>,
) -> Result<Operation<WrappedRequest<R>>, RequestError<R, AsyncIoError<E>>> {
    match bounce {
        Ok(b) => Ok(
            Operation {
                fd: 0,
                opcode: OpCode::Write,
                addr: Some(b.ptr()),
                len: Some(count),
                offset: Some(offset),
                user_data: WrappedRequest { addr: None, req, bounce_buf: Some(b) },
            },
        ),
        Err(error) => Err(RequestError { req, error }),
    }
}

/// The submission that writes from guest memory at `slice`, or the refusal if there is no slice.
pub open spec fn unbounced_write<R, E>(
    offset: u64,
    count: u32,
    req: R,
    slice: Result<usize, GuestMemoryError>,
) -> Result<Operation<WrappedRequest<R>>, RequestError<R, AsyncIoError<E>>> {
    match slice {
        Ok(host) => Ok(
            Operation {
                fd: 0,
                opcode: OpCode::Write,
                addr: Some(host),
                len: Some(count),
                offset: Some(offset),
                user_data: WrappedRequest { addr: None, req, bounce_buf: None },
            },
        ),
        Err(error) => Err(RequestError { req, error: AsyncIoError::GuestMemory(error) }),
    }
}

/// Prepares a read through a bounce buffer, given what the allocation came to.
pub fn prepare_bounced_read<R, E>(
    offset: u64,
    addr: GuestAddress,
    count: u32,
    req: R,
    bounce: Option<AlignedBuf>,
) -> (op: Result<Operation<WrappedRequest<R>>, RequestError<R, AsyncIoError<E>>>)
    requires
        bounce matches Some(b) ==> b.wf(),
    ensures
        op == bounced_read::<R, E>(offset, addr, count, req, bounce),
{
    let bounce = match bounce {
        Some(b) => b,
        None => {
            return Err(RequestError { req, error: AsyncIoError::BounceBufferAlloc });
        },
    };
    let buf_ptr: usize = bounce.as_ptr();
    let wrapped_user_data = WrappedRequest::new_with_bounce_buf(addr, req, bounce);
    Ok(Operation::read(0, buf_ptr, count, offset, wrapped_user_data))
}

/// Prepares a read straight into guest memory, given where the memory is.
pub fn prepare_unbounced_read<R, E>(
    offset: u64,
    addr: GuestAddress,
    count: u32,
    req: R,
    slice: Result<usize, GuestMemoryError>,
) -> (op: Result<Operation<WrappedRequest<R>>, RequestError<R, AsyncIoError<E>>>)
    ensures
        op == unbounced_read::<R, E>(offset, addr, count, req, slice),
{
    let buf: usize = match slice {
        Ok(host) => host,
        Err(err) => {
            return Err(RequestError { req, error: AsyncIoError::GuestMemory(err) });
        },
    };
    let wrapped_user_data = WrappedRequest::new_with_dirty_tracking(addr, req);
    Ok(Operation::read(0, buf, count, offset, wrapped_user_data))
}

/// Prepares a write through a bounce buffer, given what the allocation came to. The guest's bytes
/// are copied into the buffer, which stays where it is.
pub fn prepare_bounced_write<R, E>(
    offset: u64,
    mem: &mut GuestMemoryMmap,
    addr: GuestAddress,
    count: u32,
    req: R,
    bounce: Option<AlignedBuf>,
) -> (op: Result<Operation<WrappedRequest<R>>, RequestError<R, AsyncIoError<E>>>)
    requires
        old(mem).wf(),
        bounce matches Some(b) ==> b.wf() && b@.len() == count,
    ensures
        final(mem).regions() == old(mem).regions(),
        final(mem).dirty() == old(mem).dirty(),
        match bounce {
            None => {
                &&& op == bounced_write::<R, E>(
                    offset,
                    count,
                    req,
                    Err(AsyncIoError::BounceBufferAlloc),
                )
                &&& final(mem).accesses() == old(mem).accesses()
            },
            Some(given) => match memory::copy_outcome(old(mem).regions(), addr, count as nat) {
                Ok(_) => {
                    &&& op matches Ok(o)
                    &&& o.user_data.bounce_buf matches Some(b)
                    &&& b.wf()
                    &&& b@.len() == count
                    &&& b.ptr() == given.ptr()
                    &&& op == bounced_write::<R, E>(offset, count, req, Ok(b))
                    &&& final(mem).accesses() == old(mem).accesses().push(
                        GuestAccess::Read { addr, data: b@ },
                    )
                },
                Err(e) => {
                    &&& op == bounced_write::<R, E>(
                        offset,
                        count,
                        req,
                        Err(AsyncIoError::GuestMemory(e)),
                    )
                    &&& memory::one_read_more(
                        old(mem).accesses(),
                        final(mem).accesses(),
                        addr,
                        memory::mapped_prefix(old(mem).regions(), addr.0 as int, count as nat),
                    )
                },
            },
        },
{
    let mut bounce = match bounce {
        Some(b) => b,
        None => {
            return Err(RequestError { req, error: AsyncIoError::BounceBufferAlloc });
        },
    };
    proof {
        memory::lemma_prefix_bounded(mem.regions(), addr.0 as int, count as nat);
    }
    match mem.read_slice(bounce.as_mut_slice(), addr) {
        Ok(_) => {},
        Err(err) => {
            assert(mem.accesses().drop_last() =~= old(mem).accesses());
            return Err(RequestError { req, error: AsyncIoError::GuestMemory(err) });
        },
    }
    assert(bounce@.take(count as int) =~= bounce@);
    let buf_ptr: usize = bounce.as_ptr();
    // A write dirties no guest memory; the buffer is released on completion.
    let wrapped_user_data = WrappedRequest { addr: None, req, bounce_buf: Some(bounce) };
    Ok(Operation::write(0, buf_ptr, count, offset, wrapped_user_data))
}

/// Prepares a write straight from guest memory, given where the memory is.
pub fn prepare_unbounced_write<R, E>(
    offset: u64,
    count: u32,
    req: R,
    slice: Result<usize, GuestMemoryError>,
) -> (op: Result<Operation<WrappedRequest<R>>, RequestError<R, AsyncIoError<E>>>)
    ensures
        op == unbounced_write::<R, E>(offset, count, req, slice),
{
    let buf: usize = match slice {
        Ok(host) => host,
        Err(err) => {
            return Err(RequestError { req, error: AsyncIoError::GuestMemory(err) });
        },
    };
    let wrapped_user_data = WrappedRequest::new(req);
    Ok(Operation::write(0, buf, count, offset, wrapped_user_data))
}

/// An I/O engine over the file `F`, the ring `U` and the completion event `V`.
#[derive(Debug)]
pub struct AsyncFileEngine<F, U, V> {
    file: F,
    ring: U,
    completion_evt: V,
    direct: bool,
}

impl<F, U, V> AsyncFileEngine<F, U, V> {
    /// The backing file.
    pub closed spec fn spec_file(self) -> F {
        self.file
    }

    /// The ring.
    pub closed spec fn spec_ring(self) -> U {
        self.ring
    }

    /// The event that completions are signalled on.
    pub closed spec fn spec_completion_evt(self) -> V {
        self.completion_evt
    }

    /// Whether the file is accessed without the page cache.
    pub closed spec fn direct(self) -> bool {
        self.direct
    }

    /// The backing file.
    pub fn file(&self) -> (file: &F)
        ensures
            *file == self.spec_file(),
    {
        &self.file
    }

    /// The event that completions are signalled on.
    pub fn completion_evt(&self) -> (evt: &V)
        ensures
            *evt == self.spec_completion_evt(),
    {
        &self.completion_evt
    }

    /// Whether a transfer at `addr` needs a bounce buffer.
    pub fn needs_bounce_buf(&self, addr: GuestAddress) -> (b: bool)
        ensures
            b == buffer::needs_bounce(self.direct(), addr),
    {
        bounces(self.direct, addr)
    }

    /// Prepares the submission of a read of `count` bytes at `offset` of the file into guest
    /// memory at `addr`.
    ///
    /// Where a bounce buffer is needed, the read goes into one that stays with the request until
    /// it completes; `BounceBufferAlloc` comes if no allocation can be that large, or if the
    /// allocator refuses, and nothing is said of when it does. Otherwise the read goes to the host
    /// address of the guest's memory.
    pub fn push_read<R, E>(
        &self,
        offset: u64,
        mem: &mut GuestMemoryMmap,
        addr: GuestAddress,
        count: u32,
        req: R,
    ) -> (op: Result<Operation<WrappedRequest<R>>, RequestError<R, AsyncIoError<E>>>)
        requires
            old(mem).wf(),
        ensures
            final(mem).regions() == old(mem).regions(),
            final(mem).dirty() == old(mem).dirty(),
            op matches Ok(o) ==> {
                &&& o.fd == 0
                &&& o.opcode == OpCode::Read
                &&& o.len == Some(count)
                &&& o.offset == Some(offset)
                &&& o.user_data.req == req
                &&& o.user_data.addr == Some(addr)
                &&& o.user_data.bounce_buf is Some <==> buffer::needs_bounce(self.direct(), addr)
                &&& o.user_data.bounce_buf matches Some(b) ==> o.addr == Some(b.ptr())
            },
            op matches Err(refused) ==> refused.req == req,
            buffer::needs_bounce(self.direct(), addr) ==> {
                &&& final(mem).accesses() == old(mem).accesses()
                &&& match op {
                    Ok(o) => {
                        &&& o.user_data.bounce_buf matches Some(b)
                        &&& b.fits(count)
                        &&& op == bounced_read::<R, E>(offset, addr, count, req, Some(b))
                    },
                    Err(_) => op == bounced_read::<R, E>(offset, addr, count, req, None),
                }
            },
            buffer::needs_bounce(self.direct(), addr) && !buffer::can_reserve(
                count as int,
                DIRECT_IO_ALIGN as int,
            ) ==> op == bounced_read::<R, E>(offset, addr, count, req, None),
            !buffer::needs_bounce(self.direct(), addr) ==> match memory::slice_failure(
                old(mem).regions(),
                addr,
                count as nat,
            ) {
                None => {
                    &&& op matches Ok(o)
                    &&& o.addr matches Some(host)
                    &&& op == unbounced_read::<R, E>(offset, addr, count, req, Ok(host))
                    &&& final(mem).accesses() == old(mem).accesses().push(
                        GuestAccess::Slice { addr, len: count as nat, host },
                    )
                },
                Some(e) => {
                    &&& op == unbounced_read::<R, E>(offset, addr, count, req, Err(e))
                    &&& final(mem).accesses() == old(mem).accesses()
                },
            },
    {
        if self.needs_bounce_buf(addr) {
            let bounce = AlignedBuf::new(count as usize, DIRECT_IO_ALIGN);
            prepare_bounced_read(offset, addr, count, req, bounce)
        } else {
            let slice = mem.get_slice(addr, count as usize);
            prepare_unbounced_read(offset, addr, count, req, slice)
        }
    }

    /// Prepares the submission of a write of `count` bytes of guest memory at `addr` to `offset`
    /// of the file.
    ///
    /// Where a bounce buffer is needed, the bytes are copied into one first;
    /// `BounceBufferAlloc` comes, before guest memory is touched, if no allocation can be that
    /// large, or if the allocator refuses, and nothing is said of when it does. Otherwise the write
    /// comes from the host address of the guest's memory.
    pub fn push_write<R, E>(
        &self,
        offset: u64,
        mem: &mut GuestMemoryMmap,
        addr: GuestAddress,
        count: u32,
        req: R,
    ) -> (op: Result<Operation<WrappedRequest<R>>, RequestError<R, AsyncIoError<E>>>)
        requires
            old(mem).wf(),
        ensures
            final(mem).regions() == old(mem).regions(),
            final(mem).dirty() == old(mem).dirty(),
            op matches Ok(o) ==> {
                &&& o.fd == 0
                &&& o.opcode == OpCode::Write
                &&& o.len == Some(count)
                &&& o.offset == Some(offset)
                &&& o.user_data.req == req
                &&& o.user_data.addr == None::<GuestAddress>
                &&& o.user_data.bounce_buf is Some <==> buffer::needs_bounce(self.direct(), addr)
                &&& o.user_data.bounce_buf matches Some(b) ==> o.addr == Some(b.ptr())
            },
            op matches Err(refused) ==> refused.req == req,
            buffer::needs_bounce(self.direct(), addr) ==> match op {
                Ok(o) => {
                    &&& memory::copy_outcome(old(mem).regions(), addr, count as nat) is Ok
                    &&& o.user_data.bounce_buf matches Some(b)
                    &&& b.fits(count)
                    &&& op == bounced_write::<R, E>(offset, count, req, Ok(b))
                    &&& final(mem).accesses() == old(mem).accesses().push(
                        GuestAccess::Read { addr, data: b@ },
                    )
                },
                Err(_) => {
                    ||| {
                        &&& op == bounced_write::<R, E>(
                            offset,
                            count,
                            req,
                            Err(AsyncIoError::BounceBufferAlloc),
                        )
                        &&& final(mem).accesses() == old(mem).accesses()
                    }
                    ||| {
                        &&& memory::copy_outcome(
                            old(mem).regions(),
                            addr,
                            count as nat,
                        ) matches Err(e)
                        &&& op == bounced_write::<R, E>(
                            offset,
                            count,
                            req,
                            Err(AsyncIoError::GuestMemory(e)),
                        )
                        &&& memory::one_read_more(
                            old(mem).accesses(),
                            final(mem).accesses(),
                            addr,
                            memory::mapped_prefix(old(mem).regions(), addr.0 as int, count as nat),
                        )
                    }
                },
            },
            buffer::needs_bounce(self.direct(), addr) && !buffer::can_reserve(
                count as int,
                DIRECT_IO_ALIGN as int,
            ) ==> {
                &&& op == bounced_write::<R, E>(
                    offset,
                    count,
                    req,
                    Err(AsyncIoError::BounceBufferAlloc),
                )
                &&& final(mem).accesses() == old(mem).accesses()
            },
            !buffer::needs_bounce(self.direct(), addr) ==> match memory::slice_failure(
                old(mem).regions(),
                addr,
                count as nat,
            ) {
                None => {
                    &&& op matches Ok(o)
                    &&& o.addr matches Some(host)
                    &&& op == unbounced_write::<R, E>(offset, count, req, Ok(host))
                    &&& final(mem).accesses() == old(mem).accesses().push(
                        GuestAccess::Slice { addr, len: count as nat, host },
                    )
                },
                Some(e) => {
                    &&& op == unbounced_write::<R, E>(offset, count, req, Err(e))
                    &&& final(mem).accesses() == old(mem).accesses()
                },
            },
    {
        if self.needs_bounce_buf(addr) {
            let bounce = AlignedBuf::new(count as usize, DIRECT_IO_ALIGN);
            prepare_bounced_write(offset, mem, addr, count, req, bounce)
        } else {
            let slice = mem.get_slice(addr, count as usize);
            prepare_unbounced_write(offset, count, req, slice)
        }
    }

    /// Prepares the submission of a flush of the file.
    pub fn push_flush<R>(&self, req: R) -> (op: Operation<WrappedRequest<R>>)
        ensures
            op == flush_operation(req),
            op.fd == 0,
            op.opcode == OpCode::Fsync,
            op.user_data.req == req,
    {
        let wrapped_user_data = WrappedRequest::new(req);
        Operation::fsync(0, wrapped_user_data)
    }

    /// Interprets the ring's answer to a submission that was handed to it.
    ///
    /// A ring that refuses gives the submission's user data back, and with it the request.
    pub fn pushed<R, E>(&self, answer: Result<(), (E, WrappedRequest<R>)>) -> (done: Result<
        (),
        RequestError<R, AsyncIoError<E>>,
    >)
        ensures
            done == push_outcome(answer),
            done is Ok <==> answer is Ok,
            answer matches Err((error, data)) ==> (done matches Err(refused) && refused.req
                == data.req && refused.error == AsyncIoError::IoUring(error)),
    {
        match answer {
            Ok(_) => Ok(()),
            Err((io_uring_error, data)) => Err(
                RequestError { req: data.req, error: AsyncIoError::IoUring(io_uring_error) },
            ),
        }
    }

    /// Interprets the ring's answer to the submission of all that was pushed.
    pub fn kick_submission_queue<E>(&self, submitted: Result<u32, E>) -> (done: Result<
        (),
        AsyncIoError<E>,
    >)
        ensures
            done == match submitted {
                Ok(_) => Ok::<(), AsyncIoError<E>>(()),
                Err(error) => Err(AsyncIoError::IoUring(error)),
            },
    {
        match submitted {
            Ok(_) => Ok(()),
            Err(error) => Err(AsyncIoError::IoUring(error)),
        }
    }

    /// Starts to wait for everything in flight and, if `discard_cqes`, to drop the completions.
    pub fn drain(&self, discard_cqes: bool) -> (drain: Drain)
        ensures
            drain == (Drain { discard_cqes, flush: false }),
    {
        Drain { discard_cqes, flush: false }
    }

    /// As `drain`, and to sync the file to its device after that.
    pub fn drain_and_flush(&self, discard_cqes: bool) -> (drain: Drain)
        ensures
            drain == (Drain { discard_cqes, flush: true }),
    {
        Drain { discard_cqes, flush: true }
    }

    /// Interprets the ring's answer to a request for a completion.
    pub fn do_pop<R, E>(popped: Result<Option<Cqe<WrappedRequest<R>>>, E>) -> (cqe: Result<
        Option<Cqe<WrappedRequest<R>>>,
        AsyncIoError<E>,
    >)
        ensures
            cqe == match popped {
                Ok(c) => Ok::<Option<Cqe<WrappedRequest<R>>>, AsyncIoError<E>>(c),
                Err(error) => Err(AsyncIoError::IoUring(error)),
            },
    {
        match popped {
            Ok(cqe) => Ok(cqe),
            Err(error) => Err(AsyncIoError::IoUring(error)),
        }
    }

    /// Completes the request that the ring handed out, if it handed one out.
    ///
    /// The completion keeps its result; its request is unwrapped, which moves the data of a
    /// bounced read to guest memory and marks what a read wrote dirty. `pop_completion` says
    /// besides how the move went.
    pub fn pop<R, E>(
        &self,
        mem: &mut GuestMemoryMmap,
        popped: Result<Option<Cqe<WrappedRequest<R>>>, E>,
    ) -> (cqe: Result<Option<Cqe<R>>, AsyncIoError<E>>)
        requires
            old(mem).wf(),
            popped matches Ok(Some(c)) ==> c.user_data.wf() && c.user_data.accepts(
                uring::completed_bytes(c.res),
            ),
        ensures
            cqe == pop_outcome(popped),
            popped matches Ok(Some(c)) ==> (cqe matches Ok(Some(done)) && done.res == c.res
                && done.user_data == c.user_data.req),
            popped matches Ok(None) ==> cqe matches Ok(None),
            popped matches Err(error) ==> cqe == Err::<Option<Cqe<R>>, AsyncIoError<E>>(
                AsyncIoError::IoUring(error),
            ),
            final(mem).regions() == old(mem).regions(),
            final(mem).accesses() == old(mem).accesses() + pop_accesses(
                popped,
                old(mem).regions(),
            ),
            final(mem).dirty() == old(mem).dirty().union(pop_dirty(popped, old(mem).regions())),
    {
        match self.pop_completion(mem, popped) {
            Ok(Some(completion)) => Ok(Some(completion.cqe)),
            Ok(None) => Ok(None),
            Err(error) => Err(error),
        }
    }

    /// As `pop`, with the outcome of the copy to guest memory beside the completion.
    pub fn pop_completion<R, E>(
        &self,
        mem: &mut GuestMemoryMmap,
        popped: Result<Option<Cqe<WrappedRequest<R>>>, E>,
    ) -> (completion: Result<Option<Completion<R>>, AsyncIoError<E>>)
        requires
            old(mem).wf(),
            popped matches Ok(Some(c)) ==> c.user_data.wf() && c.user_data.accepts(
                uring::completed_bytes(c.res),
            ),
        ensures
            match (popped, completion) {
                (Ok(Some(c)), Ok(Some(done))) => {
                    &&& pop_outcome(popped) == Ok::<_, AsyncIoError<E>>(Some(done.cqe))
                    &&& done.cqe.res == c.res
                    &&& done.cqe.user_data == c.user_data.req
                    &&& done.copied == c.user_data.completion_outcome(
                        old(mem).regions(),
                        uring::completed_bytes(c.res),
                    )
                },
                (Ok(None), Ok(None)) => true,
                (Err(error), _) => completion == Err::<Option<Completion<R>>, _>(
                    AsyncIoError::IoUring(error),
                ),
                _ => false,
            },
            final(mem).regions() == old(mem).regions(),
            final(mem).accesses() == old(mem).accesses() + pop_accesses(
                popped,
                old(mem).regions(),
            ),
            final(mem).dirty() == old(mem).dirty().union(pop_dirty(popped, old(mem).regions())),
    {
        match Self::do_pop(popped) {
            Ok(Some(cqe)) => {
                let count: u32 = cqe.count();
                let (user_data, copied) = cqe.user_data.complete(mem, count);
                Ok(Some(Completion { cqe: Cqe { res: cqe.res, user_data }, copied }))
            },
            Ok(None) => Ok(None),
            Err(error) => Err(error),
        }
    }

    /// The parameters of the ring for `file`, which signals completions on `completion_fd`.
    ///
    /// Only the file itself may be named, and it may only be read, written and flushed.
    pub fn new_ring<'a>(file: &'a F, completion_fd: i32) -> (setup: RingSetup<'a, F>)
        ensures
            is_ring_for(setup, file, completion_fd),
            setup.files@ == seq![file],
            setup.eventfd == Some(completion_fd),
    {
        let mut files: Vec<&'a F> = Vec::new();
        files.push(file);
        let mut restrictions: Vec<Restriction> = Vec::new();
        restrictions.push(Restriction::RequireFixedFds);
        restrictions.push(Restriction::AllowOpCode(OpCode::Read));
        restrictions.push(Restriction::AllowOpCode(OpCode::Write));
        restrictions.push(Restriction::AllowOpCode(OpCode::Fsync));
        assert(files@ =~= seq![file]);
        assert(restrictions@ =~= seq![
            Restriction::RequireFixedFds,
            Restriction::AllowOpCode(OpCode::Read),
            Restriction::AllowOpCode(OpCode::Write),
            Restriction::AllowOpCode(OpCode::Fsync),
        ]);
        RingSetup {
            num_entries: IO_URING_NUM_ENTRIES as u32,
            files,
            restrictions,
            eventfd: Some(completion_fd),
        }
    }

    /// Starts to build an engine over `file`, given what the creation of the completion event
    /// came to. The ring is still missing.
    pub fn from_file<E>(
        file: F,
        direct: bool,
        completion_evt: Result<V, std::io::Error>,
    ) -> (setup: Result<EngineSetup<F, V>, AsyncIoError<E>>)
        ensures
            setup == match completion_evt {
                Ok(evt) => Ok::<EngineSetup<F, V>, AsyncIoError<E>>(
                    EngineSetup { file, completion_evt: evt, direct },
                ),
                Err(error) => Err(AsyncIoError::EventFd(error)),
            },
    {
        match completion_evt {
            Ok(completion_evt) => Ok(EngineSetup { file, completion_evt, direct }),
            Err(error) => Err(AsyncIoError::EventFd(error)),
        }
    }

    /// Replaces the backing file and the direct flag, given what the creation of a ring for the
    /// new file came to. Without a new ring the engine stays as it is.
    pub fn update_file<E>(&mut self, file: F, direct: bool, ring: Result<U, E>) -> (done: Result<
        (),
        AsyncIoError<E>,
    >)
        ensures
            match ring {
                Ok(r) => {
                    &&& done == Ok::<(), AsyncIoError<E>>(())
                    &&& final(self).spec_file() == file
                    &&& final(self).spec_ring() == r
                    &&& final(self).direct() == direct
                    &&& final(self).spec_completion_evt() == old(self).spec_completion_evt()
                },
                Err(error) => {
                    &&& done == Err::<(), AsyncIoError<E>>(AsyncIoError::IoUring(error))
                    &&& *final(self) == *old(self)
                },
            },
    {
        let ring = match ring {
            Ok(r) => r,
            Err(error) => {
                return Err(AsyncIoError::IoUring(error));
            },
        };
        self.file = file;
        self.ring = ring;
        self.direct = direct;
        Ok(())
    }

    /// The ring, to submit to and to pop from.
    pub fn ring_mut(&mut self) -> (ring: &mut U)
        ensures
            *ring == old(self).spec_ring(),
            final(self).spec_ring() == *final(ring),
            final(self).spec_file() == old(self).spec_file(),
            final(self).spec_completion_evt() == old(self).spec_completion_evt(),
            final(self).direct() == old(self).direct(),
    {
        &mut self.ring
    }
}

/// A request that has completed, and how its copy to guest memory went.
#[derive(Debug)]
pub struct Completion<R> {
    /// The completion.
    pub cqe: Cqe<R>,
    /// The outcome of copying a bounced read to guest memory. Any other request has nothing to
    /// copy, which went well.
    pub copied: Result<(), GuestMemoryError>,
}

/// What becomes of a request whose submission the ring answered with `answer`.
pub open spec fn push_outcome<R, E>(answer: Result<(), (E, WrappedRequest<R>)>) -> Result<
    (),
    RequestError<R, AsyncIoError<E>>,
> {
    match answer {
        Ok(_) => Ok(()),
        Err((error, data)) => Err(
            RequestError { req: data.req, error: AsyncIoError::IoUring(error) },
        ),
    }
}

/// What comes of the ring's answer to a request for a completion.
pub open spec fn pop_outcome<R, E>(popped: Result<Option<Cqe<WrappedRequest<R>>>, E>) -> Result<
    Option<Cqe<R>>,
    AsyncIoError<E>,
> {
    match popped {
        Ok(Some(c)) => Ok(Some(Cqe { res: c.res, user_data: c.user_data.req })),
        Ok(None) => Ok(None),
        Err(error) => Err(AsyncIoError::IoUring(error)),
    }
}

/// The accesses to guest memory that follow the ring's answer.
pub open spec fn pop_accesses<R, E>(
    popped: Result<Option<Cqe<WrappedRequest<R>>>, E>,
    regions: Seq<(u64, u64)>,
) -> Seq<GuestAccess> {
    match popped {
        Ok(Some(c)) => c.user_data.completion_accesses(regions, uring::completed_bytes(c.res)),
        _ => Seq::empty(),
    }
}

/// The addresses that are marked dirty after the ring's answer.
pub open spec fn pop_dirty<R, E>(
    popped: Result<Option<Cqe<WrappedRequest<R>>>, E>,
    regions: Seq<(u64, u64)>,
) -> Set<int> {
    match popped {
        Ok(Some(c)) => c.user_data.completion_dirty(regions, uring::completed_bytes(c.res)),
        _ => Set::empty(),
    }
}

/// The submission of a flush.
pub open spec fn flush_operation<R>(req: R) -> Operation<WrappedRequest<R>> {
    Operation {
        fd: 0,
        opcode: OpCode::Fsync,
        addr: None,
        len: None,
        offset: None,
        user_data: WrappedRequest { addr: None, req, bounce_buf: None },
    }
}

/// The setup of the ring that serves `file` and signals completions on `completion_fd`.
pub open spec fn is_ring_for<F>(setup: RingSetup<'_, F>, file: &F, completion_fd: i32) -> bool {
    &&& setup.num_entries == IO_URING_NUM_ENTRIES
    &&& setup.files@ == seq![file]
    &&& setup.restrictions@ == seq![
        Restriction::RequireFixedFds,
        Restriction::AllowOpCode(OpCode::Read),
        Restriction::AllowOpCode(OpCode::Write),
        Restriction::AllowOpCode(OpCode::Fsync),
    ]
    &&& setup.eventfd == Some(completion_fd)
}

/// An engine that still lacks its ring.
#[derive(Debug)]
pub struct EngineSetup<F, V> {
    /// The backing file.
    pub file: F,
    /// The event that completions are to be signalled on.
    pub completion_evt: V,
    /// Whether the file is accessed without the page cache.
    pub direct: bool,
}

impl<F, V> EngineSetup<F, V> {
    /// The engine, given what the creation of its ring came to.
    pub fn finish<U, E>(self, ring: Result<U, E>) -> (engine: Result<
        AsyncFileEngine<F, U, V>,
        AsyncIoError<E>,
    >)
        ensures
            match ring {
                Ok(r) => {
                    &&& engine matches Ok(e)
                    &&& e.spec_file() == self.file
                    &&& e.spec_ring() == r
                    &&& e.spec_completion_evt() == self.completion_evt
                    &&& e.direct() == self.direct
                },
                Err(error) => engine == Err::<AsyncFileEngine<F, U, V>, AsyncIoError<E>>(
                    AsyncIoError::IoUring(error),
                ),
            },
    {
        match ring {
            Ok(ring) => Ok(
                AsyncFileEngine {
                    file: self.file,
                    ring,
                    completion_evt: self.completion_evt,
                    direct: self.direct,
                },
            ),
            Err(error) => Err(AsyncIoError::IoUring(error)),
        }
    }
}

/// A drain of the ring: wait for all in flight, then, as asked for, drop the completions and sync
/// the file.
#[derive(Clone, Copy, Debug, PartialEq, Eq, Structural)]
pub struct Drain {
    /// Whether completions are dropped.
    pub discard_cqes: bool,
    /// Whether the file is synced at the end.
    pub flush: bool,
}

/// What a drain does next.
#[derive(Debug)]
pub enum DrainStep<E> {
    /// Ask the ring for a completion.
    Pop(Drain),
    /// Sync the file.
    SyncAll(Drain),
    /// Nothing: this is the outcome.
    Done(Result<(), AsyncIoError<E>>),
}

impl Drain {
    /// What follows once no completions are left to drop.
    pub open spec fn settled<E>(self) -> DrainStep<E> {
        if self.flush {
            DrainStep::SyncAll(self)
        } else {
            DrainStep::Done(Ok(()))
        }
    }

    /// What follows the wait for all in flight.
    pub open spec fn after_wait<E>(self, answer: Result<u32, E>) -> DrainStep<E> {
        match answer {
            Ok(_) => if self.discard_cqes {
                DrainStep::Pop(self)
            } else {
                self.settled()
            },
            Err(error) => DrainStep::Done(Err(AsyncIoError::IoUring(error))),
        }
    }

    /// What follows a request for a completion.
    pub open spec fn after_pop<T, E>(self, answer: Result<Option<T>, E>) -> DrainStep<E> {
        match answer {
            Ok(Some(_)) => DrainStep::Pop(self),
            Ok(None) => self.settled(),
            Err(error) => DrainStep::Done(Err(AsyncIoError::IoUring(error))),
        }
    }

    /// Goes on once the completions are dealt with.
    fn settle<E>(self) -> (step: DrainStep<E>)
        ensures
            step == self.settled::<E>(),
    {
        if self.flush {
            DrainStep::SyncAll(self)
        } else {
            DrainStep::Done(Ok(()))
        }
    }

    /// Takes the ring's answer to the wait for all in flight.
    pub fn waited<E>(self, answer: Result<u32, E>) -> (step: DrainStep<E>)
        ensures
            step == self.after_wait(answer),
            step matches DrainStep::Pop(d) ==> d == self,
            step matches DrainStep::SyncAll(d) ==> d == self,
            step is Pop <==> answer is Ok && self.discard_cqes,
            step is SyncAll <==> answer is Ok && !self.discard_cqes && self.flush,
            answer matches Err(error) ==> step == DrainStep::<E>::Done(
                Err(AsyncIoError::IoUring(error)),
            ),
            answer is Ok && !self.discard_cqes && !self.flush ==> step == DrainStep::<E>::Done(
                Ok(()),
            ),
    {
        match answer {
            Ok(_) => if self.discard_cqes {
                DrainStep::Pop(self)
            } else {
                self.settle()
            },
            Err(error) => DrainStep::Done(Err(AsyncIoError::IoUring(error))),
        }
    }

    /// Takes the ring's answer to the request for a completion, and drops the completion.
    pub fn popped<T, E>(self, answer: Result<Option<T>, E>) -> (step: DrainStep<E>)
        ensures
            step == self.after_pop(answer),
            step matches DrainStep::Pop(d) ==> d == self,
            step matches DrainStep::SyncAll(d) ==> d == self,
            step is Pop <==> answer matches Ok(Some(_)),
            step is SyncAll <==> self.flush && answer matches Ok(None),
            answer matches Err(error) ==> step == DrainStep::<E>::Done(
                Err(AsyncIoError::IoUring(error)),
            ),
            !self.flush && (answer matches Ok(None)) ==> step == DrainStep::<E>::Done(Ok(())),
    {
        match answer {
            Ok(Some(_)) => DrainStep::Pop(self),
            Ok(None) => self.settle(),
            Err(error) => DrainStep::Done(Err(AsyncIoError::IoUring(error))),
        }
    }

    /// Takes the outcome of syncing the file.
    pub fn synced<E>(self, answer: Result<(), std::io::Error>) -> (done: Result<
        (),
        AsyncIoError<E>,
    >)
        ensures
            done == match answer {
                Ok(_) => Ok::<(), AsyncIoError<E>>(()),
                Err(error) => Err(AsyncIoError::SyncAll(error)),
            },
    {
        match answer {
            Ok(_) => Ok(()),
            Err(error) => Err(AsyncIoError::SyncAll(error)),
        }
    }
}

} // verus!
