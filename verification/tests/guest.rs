use std::num::NonZeroUsize;

use block_io::async_io::WrappedRequest;
use block_io::buffer::{padding, reservation, AlignedBuf, DIRECT_IO_ALIGN};
use block_io::memory::{GuestAddress, GuestMemoryError, GuestMemoryMmap, GuestRegions};
use block_io::sync_io::{SyncFileEngine, TransferStep};
use vm_memory::bitmap::{AtomicBitmap, Bitmap};
use vm_memory::mmap::MmapRegionBuilder;
use vm_memory::{Bytes, GuestMemory, GuestMemoryRegion, GuestRegionMmap};

fn regions(ranges: &[(u64, usize)]) -> GuestRegions {
    let page = NonZeroUsize::new(4096).unwrap();
    let mut all = Vec::new();
    for (start, len) in ranges {
        let bitmap = Some(AtomicBitmap::new(*len, page));
        let mapping = MmapRegionBuilder::new_with_bitmap(*len, bitmap)
            .with_mmap_prot(libc::PROT_READ | libc::PROT_WRITE)
            .with_mmap_flags(libc::MAP_ANONYMOUS | libc::MAP_PRIVATE)
            .build()
            .unwrap();
        all.push(GuestRegionMmap::new(mapping, vm_memory::GuestAddress(*start)).unwrap());
    }
    GuestRegions::from_regions(all).unwrap()
}

fn guest_bytes(mem: &GuestRegions, addr: u64, len: usize) -> Vec<u8> {
    let mut bytes = vec![0u8; len];
    mem.read_slice(&mut bytes, vm_memory::GuestAddress(addr)).unwrap();
    bytes
}

fn is_dirty(mem: &GuestRegions, addr: u64) -> bool {
    let (region, offset) = mem.to_region_addr(vm_memory::GuestAddress(addr)).unwrap();
    GuestMemoryRegion::bitmap(region).dirty_at(offset.0 as usize)
}

fn filled(bytes: &[u8]) -> AlignedBuf {
    let mut buf = AlignedBuf::new(bytes.len(), DIRECT_IO_ALIGN).unwrap();
    buf.as_mut_slice().copy_from_slice(bytes);
    buf
}

#[test]
fn handle_accepts_valid_regions() {
    assert!(GuestMemoryMmap::new(regions(&[(0, 0x1000), (0x1000, 0x1000)])).is_some());
    assert!(GuestMemoryMmap::new(regions(&[(0, 0x1000), (0x8000, 0x1000)])).is_some());
    assert!(GuestMemoryMmap::new(GuestRegions::new()).is_some());
}

#[test]
fn mapping_gives_the_regions_back() {
    let mem = GuestMemoryMmap::new(regions(&[(0x4000, 0x2000)])).unwrap();
    assert_eq!(mem.mapping().num_regions(), 1);
    assert_eq!(mem.mapping().last_addr().0, 0x5fff);
}

#[test]
fn padding_reaches_the_next_multiple() {
    assert_eq!(padding(0, 4096), 0);
    assert_eq!(padding(1, 4096), 4095);
    assert_eq!(padding(4095, 4096), 1);
    assert_eq!(padding(4096, 4096), 0);
    assert_eq!(padding(7, 1), 0);
    assert_eq!(padding(10, 3), 2);
}

#[test]
fn aligned_buf_is_aligned_and_zeroed() {
    for len in [0usize, 1, 511, 4096, 10_000] {
        let buf = AlignedBuf::new(len, DIRECT_IO_ALIGN).unwrap();
        assert_eq!(buf.len(), len);
        assert_eq!(buf.as_slice().len(), len);
        assert_eq!(buf.as_ptr() % DIRECT_IO_ALIGN, 0);
        assert!(buf.as_slice().iter().all(|b| *b == 0));
        assert_eq!(buf.as_slice().as_ptr() as usize, buf.as_ptr());
    }
}

#[test]
fn reservation_leaves_room_to_align() {
    assert_eq!(reservation(16, 4096), Some(4112));
    assert_eq!(reservation(0, 1), Some(1));
    assert_eq!(reservation(16, 0), None);
    assert_eq!(reservation(isize::MAX as usize - 1, 1), Some(isize::MAX as usize));
    assert_eq!(reservation(isize::MAX as usize, 1), None);
    assert_eq!(reservation(usize::MAX, usize::MAX), None);
}

#[test]
fn aligned_buf_from_reserved_memory() {
    assert!(AlignedBuf::from_reserved(None, 16, DIRECT_IO_ALIGN).is_none());
    assert!(AlignedBuf::from_reserved(Some(Vec::new()), 16, 0).is_none());
    assert!(AlignedBuf::from_reserved(Some(Vec::new()), usize::MAX, 1).is_none());
    assert!(AlignedBuf::from_reserved(Some(Vec::new()), isize::MAX as usize, 1).is_none());
    let buf = AlignedBuf::from_reserved(Some(vec![7u8; 9000]), 16, DIRECT_IO_ALIGN).unwrap();
    assert_eq!(buf.as_slice(), &[0u8; 16]);
    assert_eq!(buf.as_ptr() % DIRECT_IO_ALIGN, 0);
    assert_eq!(buf.as_slice().as_ptr() as usize, buf.as_ptr());
}

#[test]
fn aligned_buf_stays_where_it_is() {
    let mut buf = AlignedBuf::new(100, DIRECT_IO_ALIGN).unwrap();
    let at = buf.as_ptr();
    buf.as_mut_slice()[99] = 7;
    let moved = Some(buf);
    let buf = moved.unwrap();
    assert_eq!(buf.as_ptr(), at);
    assert_eq!(buf.as_slice().as_ptr() as usize, at);
    assert_eq!(buf.as_slice()[99], 7);
    assert_eq!(buf.as_slice()[98], 0);
}

#[test]
fn aligned_buf_refuses_what_cannot_be() {
    assert!(AlignedBuf::new(16, 0).is_none());
    assert!(AlignedBuf::new(usize::MAX, DIRECT_IO_ALIGN).is_none());
    assert!(AlignedBuf::new(isize::MAX as usize, DIRECT_IO_ALIGN).is_none());
}

#[test]
fn wrapped_request_new() {
    let wrapped = WrappedRequest::new("req");
    assert!(wrapped.addr.is_none());
    assert_eq!(wrapped.req, "req");
    assert!(wrapped.bounce_buf.is_none());
}

#[test]
fn wrapped_request_new_with_dirty_tracking() {
    let wrapped = WrappedRequest::new_with_dirty_tracking(GuestAddress(0x1234), "req");
    assert_eq!(wrapped.addr, Some(GuestAddress(0x1234)));
    assert_eq!(wrapped.req, "req");
    assert!(wrapped.bounce_buf.is_none());
}

#[test]
fn wrapped_request_new_with_bounce_buf() {
    let wrapped = WrappedRequest::new_with_bounce_buf(GuestAddress(9), "req", filled(&[1, 2]));
    assert_eq!(wrapped.addr, Some(GuestAddress(9)));
    assert_eq!(wrapped.req, "req");
    assert_eq!(wrapped.bounce_buf.unwrap().as_slice(), &[1, 2]);
}

#[test]
fn can_complete_up_to_the_bounce_buffer() {
    let bounced = WrappedRequest::new_with_bounce_buf(GuestAddress(9), (), filled(&[1, 2]));
    assert!(bounced.can_complete(0));
    assert!(bounced.can_complete(2));
    assert!(!bounced.can_complete(3));
    let unbounced = WrappedRequest::new_with_dirty_tracking(GuestAddress(9), ());
    assert!(unbounced.can_complete(u32::MAX));
    let written = WrappedRequest { addr: None, req: (), bounce_buf: Some(filled(&[1, 2])) };
    assert!(written.can_complete(3));
}

#[test]
fn completing_a_plain_request_leaves_guest_memory() {
    let inner = regions(&[(0, 0x4000)]);
    let mut mem = GuestMemoryMmap::new(inner.clone()).unwrap();
    assert_eq!(WrappedRequest::new(5u8).mark_dirty_mem_and_unwrap(&mut mem, 0x2000), 5);
    assert!(!is_dirty(&inner, 0));
    assert!(!is_dirty(&inner, 0x1000));
}

#[test]
fn completing_an_unbounced_read_marks_the_range() {
    let inner = regions(&[(0x1000, 0x8000)]);
    let mut mem = GuestMemoryMmap::new(inner.clone()).unwrap();
    let wrapped = WrappedRequest::new_with_dirty_tracking(GuestAddress(0x2fff), 5u8);
    assert_eq!(wrapped.mark_dirty_mem_and_unwrap(&mut mem, 2), 5);
    assert!(!is_dirty(&inner, 0x1000));
    assert!(is_dirty(&inner, 0x2000));
    assert!(is_dirty(&inner, 0x3000));
    assert!(!is_dirty(&inner, 0x4000));
}

#[test]
fn completing_says_how_the_copy_went() {
    let mut mem = GuestMemoryMmap::new(regions(&[(0, 0x1000)])).unwrap();
    let complete = |mem: &mut GuestMemoryMmap, addr: u64| {
        let wrapped =
            WrappedRequest::new_with_bounce_buf(GuestAddress(addr), 5u8, filled(&[1, 2, 3]));
        wrapped.complete(mem, 3)
    };
    assert!(matches!(complete(&mut mem, 0xffd), (5, Ok(()))));
    assert!(matches!(
        complete(&mut mem, 0xffe),
        (5, Err(GuestMemoryError::PartialBuffer { expected: 3, completed: 2 }))
    ));
    assert!(matches!(
        complete(&mut mem, 0x1001),
        (5, Err(GuestMemoryError::InvalidGuestAddress(GuestAddress(0x1001))))
    ));
    let unbounced = WrappedRequest::new_with_dirty_tracking(GuestAddress(0x1001), 5u8);
    assert!(matches!(unbounced.complete(&mut mem, 3), (5, Ok(()))));
    assert!(matches!(WrappedRequest::new(5u8).complete(&mut mem, 3), (5, Ok(()))));
}

#[test]
fn completing_with_no_bytes_marks_nothing() {
    let inner = regions(&[(0, 0x4000)]);
    let mut mem = GuestMemoryMmap::new(inner.clone()).unwrap();
    let wrapped = WrappedRequest::new_with_dirty_tracking(GuestAddress(0x1000), 5u8);
    assert_eq!(wrapped.mark_dirty_mem_and_unwrap(&mut mem, 0), 5);
    assert!(!is_dirty(&inner, 0x1000));
}

#[test]
fn completing_a_bounced_read_copies_the_bytes_moved() {
    let inner = regions(&[(0, 0x4000)]);
    let mut mem = GuestMemoryMmap::new(inner.clone()).unwrap();
    let addr = GuestAddress(0x1003);
    let wrapped = WrappedRequest::new_with_bounce_buf(addr, 5u8, filled(&[1, 2, 3, 4]));
    assert_eq!(wrapped.mark_dirty_mem_and_unwrap(&mut mem, 3), 5);
    assert_eq!(guest_bytes(&inner, 0x1002, 5), vec![0, 1, 2, 3, 0]);
    assert!(is_dirty(&inner, 0x1000));
    assert!(!is_dirty(&inner, 0x2000));
}

#[test]
fn dirty_marking_spans_adjacent_regions() {
    let inner = regions(&[(0, 0x2000), (0x2000, 0x2000)]);
    let mut mem = GuestMemoryMmap::new(inner.clone()).unwrap();
    mem.mark_dirty(GuestAddress(0x1800), 0x1000);
    assert!(!is_dirty(&inner, 0));
    assert!(is_dirty(&inner, 0x1000));
    assert!(is_dirty(&inner, 0x2000));
    assert!(!is_dirty(&inner, 0x3000));
}

#[test]
fn dirty_marking_stops_at_a_hole() {
    let inner = regions(&[(0, 0x1000), (0x2000, 0x1000)]);
    let mut mem = GuestMemoryMmap::new(inner.clone()).unwrap();
    mem.mark_dirty(GuestAddress(0x800), 0x2000);
    assert!(is_dirty(&inner, 0));
    assert!(!is_dirty(&inner, 0x2000));
    mem.mark_dirty(GuestAddress(0x1800), 0x1000);
    assert!(!is_dirty(&inner, 0x2000));
    mem.mark_dirty(GuestAddress(0x2fff), 0x1000);
    assert!(is_dirty(&inner, 0x2000));
}

#[test]
fn blocking_bounced_read_marks_what_it_wrote() {
    let inner = regions(&[(0, 0x4000)]);
    let mut mem = GuestMemoryMmap::new(inner.clone()).unwrap();
    let read = SyncFileEngine::from_file("disk", true).read(0, GuestAddress(0x1fff), 2);
    match read.sought(&mut mem, Ok(0)) {
        TransferStep::Bounced(mut bounced) => {
            bounced.buf.as_mut_slice().copy_from_slice(&[8, 9]);
            assert!(matches!(bounced.moved(&mut mem, Ok(())), Ok(2)));
        }
        _ => panic!("not a bounced transfer"),
    }
    assert_eq!(guest_bytes(&inner, 0x1fff, 2), vec![8, 9]);
    assert!(!is_dirty(&inner, 0));
    assert!(is_dirty(&inner, 0x1000));
    assert!(is_dirty(&inner, 0x2000));
    assert!(!is_dirty(&inner, 0x3000));
}

#[test]
fn bounced_read_into_a_hole_delivers_what_is_mapped() {
    let inner = regions(&[(0, 0x1000)]);
    let mut mem = GuestMemoryMmap::new(inner.clone()).unwrap();
    let addr = GuestAddress(0xffe);
    let wrapped = WrappedRequest::new_with_bounce_buf(addr, 5u8, filled(&[8, 9, 10, 11]));
    assert_eq!(wrapped.mark_dirty_mem_and_unwrap(&mut mem, 4), 5);
    assert_eq!(guest_bytes(&inner, 0xffd, 3), vec![0, 8, 9]);
    assert!(is_dirty(&inner, 0));
}
