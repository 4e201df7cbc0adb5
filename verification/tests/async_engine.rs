use std::io::{Error, ErrorKind};

use block_io::async_io::{
    prepare_bounced_read, prepare_bounced_write, prepare_unbounced_read, prepare_unbounced_write,
    AsyncFileEngine, AsyncIoError, Drain, DrainStep, RequestError, WrappedRequest,
};
use block_io::buffer::{AlignedBuf, DIRECT_IO_ALIGN};
use block_io::memory::{GuestAddress, GuestMemoryError, GuestMemoryMmap, GuestRegions};
use block_io::uring::{Cqe, OpCode, Operation, Restriction, IO_URING_NUM_ENTRIES};
use vm_memory::mmap::MmapRegionBuilder;
use vm_memory::{Bytes, GuestMemory, GuestRegionMmap};

type Engine = AsyncFileEngine<&'static str, u32, u8>;
type Prepared =
    Result<Operation<WrappedRequest<u64>>, RequestError<u64, AsyncIoError<&'static str>>>;

fn regions(ranges: &[(u64, usize)]) -> GuestRegions {
    let mut all = Vec::new();
    for (start, len) in ranges {
        let mapping = MmapRegionBuilder::new_with_bitmap(*len, None)
            .with_mmap_prot(libc::PROT_READ | libc::PROT_WRITE)
            .with_mmap_flags(libc::MAP_ANONYMOUS | libc::MAP_PRIVATE)
            .build()
            .unwrap();
        all.push(GuestRegionMmap::new(mapping, vm_memory::GuestAddress(*start)).unwrap());
    }
    GuestRegions::from_regions(all).unwrap()
}

fn host_of(mem: &GuestRegions, addr: u64) -> usize {
    mem.get_host_address(vm_memory::GuestAddress(addr)).unwrap() as usize
}

fn engine(direct: bool) -> Engine {
    let setup = Engine::from_file::<&'static str>("disk", direct, Ok(3)).unwrap();
    setup.finish::<u32, &'static str>(Ok(40)).unwrap()
}

fn broken() -> Error {
    Error::from(ErrorKind::BrokenPipe)
}

#[test]
fn from_file_builds_the_engine() {
    let engine = engine(true);
    assert_eq!(*engine.file(), "disk");
    assert_eq!(*engine.completion_evt(), 3);
    assert!(engine.needs_bounce_buf(GuestAddress(1)));
}

#[test]
fn from_file_without_event() {
    let setup = Engine::from_file::<&'static str>("disk", false, Err(broken()));
    assert!(matches!(setup, Err(AsyncIoError::EventFd(e)) if e.kind() == ErrorKind::BrokenPipe));
}

#[test]
fn from_file_without_ring() {
    let setup = Engine::from_file::<&'static str>("disk", false, Ok(3)).unwrap();
    let engine = setup.finish::<u32, &'static str>(Err("no ring"));
    assert!(matches!(engine, Err(AsyncIoError::IoUring("no ring"))));
}

#[test]
fn update_file_replaces_file_ring_and_flag() {
    let mut engine = engine(false);
    assert!(engine.update_file::<&'static str>("other", true, Ok(41)).is_ok());
    assert_eq!(*engine.file(), "other");
    assert_eq!(*engine.ring_mut(), 41);
    assert_eq!(*engine.completion_evt(), 3);
    assert!(engine.needs_bounce_buf(GuestAddress(1)));
}

#[test]
fn update_file_without_ring_changes_nothing() {
    let mut engine = engine(false);
    let done = engine.update_file("other", true, Err("no ring"));
    assert!(matches!(done, Err(AsyncIoError::IoUring("no ring"))));
    assert_eq!(*engine.file(), "disk");
    assert_eq!(*engine.ring_mut(), 40);
    assert!(!engine.needs_bounce_buf(GuestAddress(1)));
}

#[test]
fn new_ring_is_restricted() {
    let setup = Engine::new_ring(&"disk", 9);
    assert_eq!(setup.num_entries, 128);
    assert_eq!(setup.num_entries, u32::from(IO_URING_NUM_ENTRIES));
    assert_eq!(setup.files, vec![&"disk"]);
    assert_eq!(setup.eventfd, Some(9));
    assert_eq!(
        setup.restrictions,
        vec![
            Restriction::RequireFixedFds,
            Restriction::AllowOpCode(OpCode::Read),
            Restriction::AllowOpCode(OpCode::Write),
            Restriction::AllowOpCode(OpCode::Fsync),
        ]
    );
}

#[test]
fn needs_bounce_buf_only_if_direct_and_unaligned() {
    let align = DIRECT_IO_ALIGN as u64;
    for addr in [0, align, 10 * align] {
        assert!(!engine(true).needs_bounce_buf(GuestAddress(addr)));
        assert!(!engine(false).needs_bounce_buf(GuestAddress(addr)));
    }
    for addr in [1, align - 1, align + 1, u64::MAX] {
        assert!(engine(true).needs_bounce_buf(GuestAddress(addr)));
        assert!(!engine(false).needs_bounce_buf(GuestAddress(addr)));
    }
}

#[test]
fn push_read_unbounced_targets_guest_memory() {
    let inner = regions(&[(0x1000, 0x4000)]);
    let mut mem = GuestMemoryMmap::new(inner.clone()).unwrap();
    let op: Prepared = engine(false).push_read(77, &mut mem, GuestAddress(0x2345), 512, 6);
    let op = op.unwrap();
    assert_eq!(op.fd, 0);
    assert_eq!(op.opcode, OpCode::Read);
    assert_eq!(op.addr, Some(host_of(&inner, 0x2345)));
    assert_eq!(op.len, Some(512));
    assert_eq!(op.offset, Some(77));
    assert_eq!(op.user_data.addr, Some(GuestAddress(0x2345)));
    assert_eq!(op.user_data.req, 6);
    assert!(op.user_data.bounce_buf.is_none());
}

#[test]
fn push_read_unbounced_needs_one_region() {
    let mut mem = GuestMemoryMmap::new(regions(&[(0, 0x1000), (0x1000, 0x1000)])).unwrap();
    let op: Prepared = engine(false).push_read(0, &mut mem, GuestAddress(0xff0), 0x20, 6);
    let refused = op.unwrap_err();
    assert_eq!(refused.req, 6);
    assert!(matches!(
        refused.error,
        AsyncIoError::GuestMemory(GuestMemoryError::InvalidBackendAddress)
    ));
}

#[test]
fn push_read_unbounced_unmapped() {
    let mut mem = GuestMemoryMmap::new(regions(&[(0, 0x1000)])).unwrap();
    let op: Prepared = engine(false).push_read(0, &mut mem, GuestAddress(0x1000), 1, 6);
    let refused = op.unwrap_err();
    assert_eq!(refused.req, 6);
    assert!(matches!(
        refused.error,
        AsyncIoError::GuestMemory(GuestMemoryError::InvalidGuestAddress(GuestAddress(0x1000)))
    ));
}

#[test]
fn push_read_bounced_targets_the_buffer() {
    let mut mem = GuestMemoryMmap::new(regions(&[(0, 0x4000)])).unwrap();
    let op: Prepared = engine(true).push_read(512, &mut mem, GuestAddress(0x1001), 1024, 6);
    let op = op.unwrap();
    let bounce = op.user_data.bounce_buf.as_ref().unwrap();
    assert_eq!(op.opcode, OpCode::Read);
    assert_eq!(op.addr, Some(bounce.as_ptr()));
    assert_eq!(bounce.as_ptr() % DIRECT_IO_ALIGN, 0);
    assert_eq!(bounce.len(), 1024);
    assert_eq!(op.len, Some(1024));
    assert_eq!(op.offset, Some(512));
    assert_eq!(op.user_data.addr, Some(GuestAddress(0x1001)));
    assert_eq!(op.user_data.req, 6);
}

#[test]
fn push_write_unbounced_comes_from_guest_memory() {
    let inner = regions(&[(0, 0x4000)]);
    let mut mem = GuestMemoryMmap::new(inner.clone()).unwrap();
    let op: Prepared = engine(true).push_write(1, &mut mem, GuestAddress(0x1000), 512, 6);
    let op = op.unwrap();
    assert_eq!(op.opcode, OpCode::Write);
    assert_eq!(op.addr, Some(host_of(&inner, 0x1000)));
    assert_eq!(op.len, Some(512));
    assert_eq!(op.offset, Some(1));
    assert!(op.user_data.addr.is_none());
    assert!(op.user_data.bounce_buf.is_none());
}

#[test]
fn push_write_bounced_copies_the_guest_bytes() {
    let inner = regions(&[(0, 0x1000), (0x1000, 0x1000)]);
    inner.write_slice(&[1, 2, 3, 4], vm_memory::GuestAddress(0xffe)).unwrap();
    let mut mem = GuestMemoryMmap::new(inner).unwrap();
    let op: Prepared = engine(true).push_write(1, &mut mem, GuestAddress(0xffd), 6, 6);
    let op = op.unwrap();
    let bounce = op.user_data.bounce_buf.as_ref().unwrap();
    assert_eq!(bounce.as_slice(), &[0, 1, 2, 3, 4, 0]);
    assert_eq!(op.addr, Some(bounce.as_ptr()));
    assert_eq!(bounce.as_ptr() % DIRECT_IO_ALIGN, 0);
    assert_eq!(op.opcode, OpCode::Write);
    assert!(op.user_data.addr.is_none());
    assert_eq!(op.user_data.req, 6);
}

#[test]
fn push_write_bounced_partly_mapped() {
    let mut mem = GuestMemoryMmap::new(regions(&[(0, 0x1000)])).unwrap();
    let op: Prepared = engine(true).push_write(1, &mut mem, GuestAddress(0xffd), 6, 6);
    let refused = op.unwrap_err();
    assert_eq!(refused.req, 6);
    assert!(matches!(
        refused.error,
        AsyncIoError::GuestMemory(GuestMemoryError::PartialBuffer { expected: 6, completed: 3 })
    ));
}

#[test]
fn push_write_bounced_unmapped() {
    let mut mem = GuestMemoryMmap::new(regions(&[(0, 0x1000)])).unwrap();
    let op: Prepared = engine(true).push_write(1, &mut mem, GuestAddress(0x2001), 6, 6);
    assert!(matches!(
        op.unwrap_err().error,
        AsyncIoError::GuestMemory(GuestMemoryError::InvalidGuestAddress(GuestAddress(0x2001)))
    ));
}

#[test]
fn push_write_bounced_of_nothing_is_accepted() {
    let mut mem = GuestMemoryMmap::new(regions(&[(0, 0x1000)])).unwrap();
    let op: Prepared = engine(true).push_write(1, &mut mem, GuestAddress(0x2001), 0, 6);
    assert_eq!(op.unwrap().len, Some(0));
}

#[test]
fn prepared_from_given_outcomes() {
    let op: Prepared = prepare_bounced_read(1, GuestAddress(2), 3, 4, None);
    let refused = op.unwrap_err();
    assert_eq!(refused.req, 4);
    assert!(matches!(refused.error, AsyncIoError::BounceBufferAlloc));

    let mut mem = GuestMemoryMmap::new(regions(&[(0, 0x1000)])).unwrap();
    let op: Prepared = prepare_bounced_write(1, &mut mem, GuestAddress(2), 3, 4, None);
    let refused = op.unwrap_err();
    assert_eq!(refused.req, 4);
    assert!(matches!(refused.error, AsyncIoError::BounceBufferAlloc));

    let op: Prepared = prepare_unbounced_read(1, GuestAddress(2), 3, 4, Ok(0x7000));
    assert_eq!(op.unwrap().addr, Some(0x7000));

    let op: Prepared =
        prepare_unbounced_write(1, 3, 4, Err(GuestMemoryError::HostAddressNotAvailable));
    let refused = op.unwrap_err();
    assert_eq!(refused.req, 4);
    assert!(matches!(
        refused.error,
        AsyncIoError::GuestMemory(GuestMemoryError::HostAddressNotAvailable)
    ));
}

#[test]
fn push_flush_is_an_fsync() {
    let op = engine(true).push_flush(6);
    assert_eq!(op.fd, 0);
    assert_eq!(op.opcode, OpCode::Fsync);
    assert_eq!(op.addr, None);
    assert_eq!(op.len, None);
    assert_eq!(op.offset, None);
    assert_eq!(op.user_data.req, 6);
    assert!(op.user_data.addr.is_none());
    assert!(op.user_data.bounce_buf.is_none());
}

#[test]
fn only_reads_name_a_guest_address() {
    let mut mem = GuestMemoryMmap::new(regions(&[(0, 0x4000)])).unwrap();
    let engine = engine(true);
    for addr in [GuestAddress(0x1000), GuestAddress(0x1001)] {
        let read: Prepared = engine.push_read(0, &mut mem, addr, 4, 1);
        assert_eq!(read.unwrap().user_data.addr, Some(addr));
        let write: Prepared = engine.push_write(0, &mut mem, addr, 4, 1);
        assert_eq!(write.unwrap().user_data.addr, None);
    }
    assert_eq!(engine.push_flush(1u64).user_data.addr, None);
}

#[test]
fn pushed_hands_a_refused_request_back() {
    let engine = engine(false);
    assert!(engine.pushed::<u64, &'static str>(Ok(())).is_ok());
    let refused = engine.pushed(Err(("full", WrappedRequest::new(6u64)))).unwrap_err();
    assert_eq!(refused.req, 6);
    assert!(matches!(refused.error, AsyncIoError::IoUring("full")));
}

#[test]
fn kick_submission_queue_maps_the_answer() {
    let engine = engine(false);
    assert!(engine.kick_submission_queue::<&'static str>(Ok(5)).is_ok());
    let failed = engine.kick_submission_queue(Err("down"));
    assert!(matches!(failed, Err(AsyncIoError::IoUring("down"))));
}

#[test]
fn cqe_count_of_an_error_is_zero() {
    assert_eq!(Cqe { res: 17, user_data: () }.count(), 17);
    assert_eq!(Cqe { res: 0, user_data: () }.count(), 0);
    assert_eq!(Cqe { res: -5, user_data: () }.count(), 0);
    assert_eq!(Cqe { res: i32::MAX, user_data: () }.count(), i32::MAX as u32);
}

#[test]
fn pop_completes_a_bounced_read() {
    let inner = regions(&[(0, 0x4000)]);
    let mut mem = GuestMemoryMmap::new(inner.clone()).unwrap();
    let engine = engine(true);
    let op: Prepared = engine.push_read(0, &mut mem, GuestAddress(0x1001), 4, 6);
    let mut data = op.unwrap().user_data;
    data.bounce_buf.as_mut().unwrap().as_mut_slice().copy_from_slice(&[5, 6, 7, 8]);
    let popped: Result<_, &'static str> = Ok(Some(Cqe { res: 3, user_data: data }));
    let cqe = engine.pop(&mut mem, popped).unwrap().unwrap();
    assert_eq!(cqe.res, 3);
    assert_eq!(cqe.user_data, 6);
    let mut bytes = [0u8; 5];
    inner.read_slice(&mut bytes, vm_memory::GuestAddress(0x1000)).unwrap();
    assert_eq!(bytes, [0, 5, 6, 7, 0]);
}

#[test]
fn pop_of_a_failed_read_copies_nothing() {
    let inner = regions(&[(0, 0x4000)]);
    let mut mem = GuestMemoryMmap::new(inner.clone()).unwrap();
    let engine = engine(true);
    let op: Prepared = engine.push_read(0, &mut mem, GuestAddress(0x1001), 4, 6);
    let mut data = op.unwrap().user_data;
    data.bounce_buf.as_mut().unwrap().as_mut_slice().copy_from_slice(&[5, 6, 7, 8]);
    let popped: Result<_, &'static str> = Ok(Some(Cqe { res: -5, user_data: data }));
    let cqe = engine.pop(&mut mem, popped).unwrap().unwrap();
    assert_eq!(cqe.res, -5);
    assert_eq!(cqe.user_data, 6);
    let mut bytes = [9u8; 4];
    inner.read_slice(&mut bytes, vm_memory::GuestAddress(0x1001)).unwrap();
    assert_eq!(bytes, [0, 0, 0, 0]);
}

#[test]
fn pop_of_a_bounced_write_leaves_guest_memory() {
    let inner = regions(&[(0, 0x4000)]);
    inner.write_slice(&[1, 2, 3], vm_memory::GuestAddress(0x1001)).unwrap();
    let mut mem = GuestMemoryMmap::new(inner.clone()).unwrap();
    let engine = engine(true);
    let op: Prepared = engine.push_write(0, &mut mem, GuestAddress(0x1001), 3, 6);
    let data = op.unwrap().user_data;
    inner.write_slice(&[7, 8, 9], vm_memory::GuestAddress(0x1001)).unwrap();
    let popped: Result<_, &'static str> = Ok(Some(Cqe { res: 3, user_data: data }));
    assert_eq!(engine.pop(&mut mem, popped).unwrap().unwrap().user_data, 6);
    let mut bytes = [0u8; 3];
    inner.read_slice(&mut bytes, vm_memory::GuestAddress(0x1001)).unwrap();
    assert_eq!(bytes, [7, 8, 9]);
}

#[test]
fn bounced_write_is_a_snapshot() {
    let inner = regions(&[(0, 0x4000)]);
    inner.write_slice(&[1, 2, 3], vm_memory::GuestAddress(0x1001)).unwrap();
    let mut mem = GuestMemoryMmap::new(inner.clone()).unwrap();
    let op: Prepared = engine(true).push_write(0, &mut mem, GuestAddress(0x1001), 3, 6);
    inner.write_slice(&[7, 8, 9], vm_memory::GuestAddress(0x1001)).unwrap();
    let op = op.unwrap();
    let bounce = op.user_data.bounce_buf.as_ref().unwrap();
    assert_eq!(op.addr, Some(bounce.as_slice().as_ptr() as usize));
    assert_eq!(op.len, Some(3));
    assert_eq!(bounce.as_slice(), &[1, 2, 3]);
}

#[test]
fn pop_completion_says_how_the_copy_went() {
    let mut mem = GuestMemoryMmap::new(regions(&[(0, 0x1000)])).unwrap();
    let engine = engine(true);
    let op: Prepared = engine.push_read(0, &mut mem, GuestAddress(0xffe), 4, 6);
    let data = op.unwrap().user_data;
    let popped: Result<_, &'static str> = Ok(Some(Cqe { res: 4, user_data: data }));
    let completion = engine.pop_completion(&mut mem, popped).unwrap().unwrap();
    assert_eq!(completion.cqe.res, 4);
    assert_eq!(completion.cqe.user_data, 6);
    assert!(matches!(
        completion.copied,
        Err(GuestMemoryError::PartialBuffer { expected: 4, completed: 2 })
    ));
    assert!(engine.pop_completion::<u64, &'static str>(&mut mem, Ok(None)).unwrap().is_none());
    let failed = engine.pop_completion::<u64, &'static str>(&mut mem, Err("down"));
    assert!(matches!(failed, Err(AsyncIoError::IoUring("down"))));
}

#[test]
fn accepted_requests_come_back_once() {
    let mut mem = GuestMemoryMmap::new(regions(&[(0, 0x4000)])).unwrap();
    let engine = engine(true);
    let prepared: [Prepared; 5] = [
        engine.push_read(0, &mut mem, GuestAddress(0x1001), 4, 1),
        engine.push_read(0, &mut mem, GuestAddress(0x8000), 4, 2),
        engine.push_write(0, &mut mem, GuestAddress(0x1000), 4, 3),
        Ok(engine.push_flush(4)),
        engine.push_write(0, &mut mem, GuestAddress(0x1001), 4, 5),
    ];
    // A ring that holds three requests, and completes the latest first.
    let mut ring = Vec::new();
    let mut accepted = Vec::new();
    let mut refused = Vec::new();
    for (req, prepared) in (1u64..).zip(prepared) {
        let pushed = prepared.and_then(|op| {
            if ring.len() == 3 {
                return engine.pushed(Err(("full", op.user_data)));
            }
            ring.push(op.user_data);
            engine.pushed(Ok(()))
        });
        match pushed {
            Ok(()) => accepted.push(req),
            Err(back) => refused.push(back.req),
        }
    }
    assert_eq!(accepted, vec![1, 3, 4]);
    assert_eq!(refused, vec![2, 5]);
    let mut returned = Vec::new();
    for _ in 0..3 {
        let popped = ring.pop().map(|user_data| Cqe { res: 0, user_data });
        let cqe = engine.pop::<u64, &'static str>(&mut mem, Ok(popped)).unwrap().unwrap();
        returned.push(cqe.user_data);
    }
    let popped = ring.pop().map(|user_data| Cqe { res: 0, user_data });
    assert!(engine.pop::<u64, &'static str>(&mut mem, Ok(popped)).unwrap().is_none());
    returned.sort();
    assert_eq!(returned, accepted);
}

#[test]
fn pop_passes_nothing_and_errors_on() {
    let mut mem = GuestMemoryMmap::new(regions(&[(0, 0x1000)])).unwrap();
    let engine = engine(false);
    assert!(engine.pop::<u64, &'static str>(&mut mem, Ok(None)).unwrap().is_none());
    let failed = engine.pop::<u64, &'static str>(&mut mem, Err("down"));
    assert!(matches!(failed, Err(AsyncIoError::IoUring("down"))));
    let failed = Engine::do_pop::<u64, &'static str>(Err("down"));
    assert!(matches!(failed, Err(AsyncIoError::IoUring("down"))));
}

#[test]
fn drain_keeps_completions() {
    let drain = engine(false).drain(false);
    assert_eq!(drain, Drain { discard_cqes: false, flush: false });
    assert!(matches!(drain.waited::<&'static str>(Ok(3)), DrainStep::Done(Ok(()))));
}

#[test]
fn drain_discards_until_the_queue_is_empty() {
    let drain = engine(false).drain(true);
    let mut step = drain.waited::<&'static str>(Ok(2));
    for answer in [Ok(Some(1)), Ok(Some(2)), Ok(None)] {
        step = match step {
            DrainStep::Pop(drain) => drain.popped(answer),
            _ => panic!("the drain ended early"),
        };
    }
    assert!(matches!(step, DrainStep::Done(Ok(()))));
}

#[test]
fn drain_ends_at_an_error() {
    let drain = engine(false).drain_and_flush(true);
    let step = drain.waited(Err("down"));
    assert!(matches!(step, DrainStep::Done(Err(AsyncIoError::IoUring("down")))));
    let step = drain.popped::<u8, &'static str>(Err("down"));
    assert!(matches!(step, DrainStep::Done(Err(AsyncIoError::IoUring("down")))));
}

#[test]
fn drain_and_flush_syncs_at_the_end() {
    let engine = engine(false);
    let step = engine.drain_and_flush(false).waited::<&'static str>(Ok(0));
    assert!(matches!(step, DrainStep::SyncAll(_)));
    let drain = engine.drain_and_flush(true);
    assert!(matches!(drain.waited::<&'static str>(Ok(0)), DrainStep::Pop(_)));
    let step = drain.popped::<u8, &'static str>(Ok(None));
    assert!(matches!(step, DrainStep::SyncAll(_)));
    assert!(drain.synced::<&'static str>(Ok(())).is_ok());
    let failed = drain.synced::<&'static str>(Err(broken()));
    assert!(matches!(failed, Err(AsyncIoError::SyncAll(e)) if e.kind() == ErrorKind::BrokenPipe));
}

#[test]
fn bounced_write_keeps_a_given_buffer() {
    let inner = regions(&[(0, 0x1000)]);
    inner.write_slice(&[1, 2, 3], vm_memory::GuestAddress(2)).unwrap();
    let mut mem = GuestMemoryMmap::new(inner).unwrap();
    let buf = AlignedBuf::new(3, DIRECT_IO_ALIGN).unwrap();
    let at = buf.as_ptr();
    let op: Prepared = prepare_bounced_write(1, &mut mem, GuestAddress(2), 3, 4, Some(buf));
    let op = op.unwrap();
    assert_eq!(op.addr, Some(at));
    let kept = op.user_data.bounce_buf.unwrap();
    assert_eq!(kept.as_ptr(), at);
    assert_eq!(kept.as_slice(), &[1, 2, 3]);
}
