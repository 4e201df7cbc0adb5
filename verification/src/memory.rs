//! Guest physical memory, as the I/O engines see it.

use vm_memory::Bytes;
use vm_memory::GuestMemoryError as VmMemoryError;
use vm_memory::GuestMemory;
use vm_memory::GuestMemoryRegion;
use vm_memory::bitmap::Bitmap;
use vstd::prelude::*;

verus! {

/// A guest physical address.
#[derive(Clone, Copy, Debug, PartialEq, Eq, Structural)]
pub struct GuestAddress(pub u64);

/// `std::io::Error`, carried through unread.
#[verifier::external_type_specification]
#[verifier::external_body]
pub struct ExIoError(std::io::Error);

/// Why an access to guest memory failed.
#[derive(Debug)]
pub enum GuestMemoryError {
    /// The address lies in no region.
    InvalidGuestAddress(GuestAddress),
    /// The underlying file could not be read or written.
    IOError(std::io::Error),
    /// Only the first `completed` of `expected` bytes could be moved.
    PartialBuffer { expected: usize, completed: usize },
    /// The range leaves the region it starts in.
    InvalidBackendAddress,
    /// The region has no address on the host.
    HostAddressNotAvailable,
    /// An access callback reported more bytes than it was given.
    CallbackOutOfRange,
    /// The range runs past the end of the address space.
    GuestAddressOverflow,
}

/// `vm_memory::GuestRegionCollection`, the regions that make up guest memory.
#[verifier::external_type_specification]
#[verifier::external_body]
#[verifier::reject_recursive_types(R)]
pub struct ExGuestRegionCollection<R>(vm_memory::GuestRegionCollection<R>);

/// `vm_memory::GuestRegionMmap`, one region.
#[verifier::external_type_specification]
#[verifier::external_body]
#[verifier::reject_recursive_types(B)]
pub struct ExGuestRegionMmap<B>(vm_memory::GuestRegionMmap<B>);

/// `vm_memory::bitmap::AtomicBitmap`, the dirty pages of one region.
#[verifier::external_type_specification]
#[verifier::external_body]
pub struct ExAtomicBitmap(vm_memory::bitmap::AtomicBitmap);

/// The mapped regions of a guest, each with the dirty bitmap that it may have.
pub type GuestRegions = vm_memory::GuestRegionCollection<
    vm_memory::GuestRegionMmap<Option<vm_memory::bitmap::AtomicBitmap>>,
>;

/// The first address and the length of each region of `mem`, in the order of the collection.
pub uninterp spec fn guest_regions(mem: GuestRegions) -> Seq<(u64, u64)>;

/// Whether the region `(start, length)` holds the address `a`.
pub open spec fn in_region(region: (u64, u64), a: int) -> bool {
    region.0 <= a < region.0 + region.1
}

/// Whether some region holds the address `a`.
pub open spec fn is_mapped(regions: Seq<(u64, u64)>, a: int) -> bool {
    exists|i: int| 0 <= i < regions.len() && in_region(#[trigger] regions[i], a)
}

/// Whether one region holds all of `[addr, addr + len)`, and `addr` itself if `len` is 0.
pub open spec fn in_one_region(regions: Seq<(u64, u64)>, addr: int, len: nat) -> bool {
    exists|i: int|
        0 <= i < regions.len() && in_region(#[trigger] regions[i], addr) && addr + len
            <= regions[i].0 + regions[i].1
}

/// How many of the `len` addresses from `addr` on are mapped before the first hole.
pub open spec fn mapped_prefix(regions: Seq<(u64, u64)>, addr: int, len: nat) -> nat
    decreases len,
{
    if len > 0 && is_mapped(regions, addr) {
        1 + mapped_prefix(regions, addr + 1, (len - 1) as nat)
    } else {
        0
    }
}

/// The addresses `[addr, addr + len)`.
pub open spec fn address_range(addr: int, len: nat) -> Set<int> {
    Set::new(|a: int| addr <= a < addr + len)
}

/// Regions are non-empty, end inside the address space, and are sorted without overlap.
pub open spec fn regions_valid(regions: Seq<(u64, u64)>) -> bool {
    &&& forall|i: int|
        0 <= i < regions.len() ==> 0 < (#[trigger] regions[i]).1 && regions[i].0 + regions[i].1
            <= u64::MAX
    &&& forall|i: int, j: int|
        0 <= i < j < regions.len() ==> (#[trigger] regions[i]).0 + regions[i].1 <= (
        #[trigger] regions[j]).0
}

/// What a copy of `len` bytes from or to guest memory at `addr` returns.
pub open spec fn copy_outcome(regions: Seq<(u64, u64)>, addr: GuestAddress, len: nat) -> Result<
    (),
    GuestMemoryError,
> {
    let completed = mapped_prefix(regions, addr.0 as int, len);
    if completed == len {
        Ok(())
    } else if completed == 0 {
        Err(GuestMemoryError::InvalidGuestAddress(addr))
    } else {
        Err(
            GuestMemoryError::PartialBuffer {
                expected: len as usize,
                completed: completed as usize,
            },
        )
    }
}

/// Why `[addr, addr + len)` cannot be had as one slice of guest memory, if it cannot.
pub open spec fn slice_failure(
    regions: Seq<(u64, u64)>,
    addr: GuestAddress,
    len: nat,
) -> Option<GuestMemoryError> {
    if !is_mapped(regions, addr.0 as int) {
        Some(GuestMemoryError::InvalidGuestAddress(addr))
    } else if !in_one_region(regions, addr.0 as int, len) {
        Some(GuestMemoryError::InvalidBackendAddress)
    } else {
        None
    }
}

/// `GuestMemory::iter` hands out the regions of the collection in its own order;
/// `start_addr` and `len` are where each one begins and how long it is.
#[verifier::external_body]
fn region_table(mem: &GuestRegions) -> (table: Vec<(u64, u64)>)
    ensures
        table@ == guest_regions(*mem),
{
    mem.iter().map(|r| (r.start_addr().0, r.len())).collect()
}

/// One access that was made to guest memory.
///
/// The bytes that guest memory holds are not modelled: the guest may change them at any time.
/// What is modelled is which bytes were moved, from or to which address, and in what order.
pub enum GuestAccess {
    /// The host address of the `len` bytes at `addr` was handed out.
    Slice { addr: GuestAddress, len: nat, host: usize },
    /// `data` was read, beginning at `addr`.
    Read { addr: GuestAddress, data: Seq<u8> },
    /// `data` was written, beginning at `addr`.
    Write { addr: GuestAddress, data: Seq<u8> },
    /// The `len` addresses from `addr` on were marked dirty by themselves. A write marks what it
    /// writes without such an entry.
    Mark { addr: GuestAddress, len: nat },
}

/// `after` is `before` and one more read at `addr`, which got `len` bytes.
pub open spec fn one_read_more(
    before: Seq<GuestAccess>,
    after: Seq<GuestAccess>,
    addr: GuestAddress,
    len: nat,
) -> bool {
    &&& after.len() == before.len() + 1
    &&& after.drop_last() == before
    &&& after.last() matches GuestAccess::Read { addr: at, data }
    &&& at == addr
    &&& data.len() == len
}

/// A handle on the memory of a guest.
///
/// It remembers, for proofs only, the accesses made through it and the addresses marked dirty
/// through it.
pub struct GuestMemoryMmap {
    inner: GuestRegions,
    accesses: Ghost<Seq<GuestAccess>>,
    dirty: Ghost<Set<int>>,
}

impl GuestMemoryMmap {
    /// The regions, as first address and length.
    pub closed spec fn regions(self) -> Seq<(u64, u64)> {
        guest_regions(self.inner)
    }

    /// The accesses made through this handle, oldest first.
    pub closed spec fn accesses(self) -> Seq<GuestAccess> {
        self.accesses@
    }

    /// The addresses that were marked dirty through this handle: those it wrote to, and those it
    /// was told of.
    pub closed spec fn dirty(self) -> Set<int> {
        self.dirty@
    }

    /// The regions satisfy `regions_valid`.
    pub open spec fn wf(self) -> bool {
        regions_valid(self.regions())
    }

    /// A handle on `inner`, or `None` if its regions are not valid.
    pub fn new(inner: GuestRegions) -> (mem: Option<GuestMemoryMmap>)
        ensures
            mem is Some <==> regions_valid(guest_regions(inner)),
            mem matches Some(m) ==> {
                &&& m.wf()
                &&& m.regions() == guest_regions(inner)
                &&& m.accesses() == Seq::<GuestAccess>::empty()
                &&& m.dirty() == Set::<int>::empty()
            },
    {
        let table = region_table(&inner);
        let mut i: usize = 0;
        while i < table.len()
            invariant
                i <= table.len(),
                table@ == guest_regions(inner),
                regions_valid(table@.take(i as int)),
            decreases table.len() - i,
        {
            let (start, len): (u64, u64) = table[i];
            proof {
                assert(table@.take(i + 1)[i as int] == (start, len));
                assert(table@.take(i + 1).take(i as int) =~= table@.take(i as int));
            }
            if len == 0 || len > u64::MAX - start {
                assert(!regions_valid(table@));
                return None;
            }
            if i > 0 {
                let (before, before_len): (u64, u64) = table[i - 1];
                assert(table@.take(i as int)[i - 1] == (before, before_len));
                if before + before_len > start {
                    assert(table@[i - 1] == (before, before_len));
                    assert(table@[i as int] == (start, len));
                    assert(!regions_valid(table@));
                    return None;
                }
            }
            proof {
                let longer = table@.take(i + 1);
                let shorter = table@.take(i as int);
                assert forall|k: int, j: int| 0 <= k < j < longer.len() implies (
                #[trigger] longer[k]).0 + longer[k].1 <= (#[trigger] longer[j]).0 by {
                    assert(longer[k] == shorter[k]);
                    if j < i {
                        assert(longer[j] == shorter[j]);
                    } else if k < i - 1 {
                        assert(shorter[k].0 + shorter[k].1 <= shorter[i - 1].0);
                    }
                }
                assert forall|k: int| 0 <= k < longer.len() implies 0 < (#[trigger] longer[k]).1
                    && longer[k].0 + longer[k].1 <= u64::MAX by {
                    if k < i {
                        assert(longer[k] == shorter[k]);
                    }
                }
            }
            i = i + 1;
        }
        assert(table@.take(i as int) =~= table@);
        Some(
            GuestMemoryMmap {
                inner,
                accesses: Ghost(Seq::<GuestAccess>::empty()),
                dirty: Ghost(Set::<int>::empty()),
            },
        )
    }

    /// The regions themselves, for transfers between a file and guest memory. What is done through
    /// them the handle does not remember.
    pub fn mapping(&self) -> (inner: &GuestRegions)
        ensures
            guest_regions(*inner) == self.regions(),
    {
        &self.inner
    }

    /// `GuestMemory::get_slice`, then the address that its `ptr_guard_mut` points to.
    ///
    /// The slice is there exactly if one region holds all of it. An address in no region gives
    /// `InvalidGuestAddress`, a range that leaves its region `InvalidBackendAddress`. Which host
    /// address comes back depends on where the region was mapped, and is left open. The record of
    /// accesses gains the slice that was handed out.
    #[verifier::external_body]
    pub(crate) fn get_slice(&mut self, addr: GuestAddress, len: usize) -> (host: Result<
        usize,
        GuestMemoryError,
    >)
        requires
            old(self).wf(),
        ensures
            final(self).regions() == old(self).regions(),
            final(self).dirty() == old(self).dirty(),
            match host {
                Ok(h) => {
                    &&& slice_failure(old(self).regions(), addr, len as nat) is None
                    &&& final(self).accesses() == old(self).accesses().push(
                        GuestAccess::Slice { addr, len: len as nat, host: h },
                    )
                },
                Err(e) => {
                    &&& slice_failure(old(self).regions(), addr, len as nat) == Some(e)
                    &&& final(self).accesses() == old(self).accesses()
                },
            },
    {
        let slice = self.inner.get_slice(vm_memory::GuestAddress(addr.0), len);
        slice.map(|s| s.ptr_guard_mut().as_ptr() as usize).map_err(|e| match e {
            VmMemoryError::InvalidGuestAddress(a) => {
                GuestMemoryError::InvalidGuestAddress(GuestAddress(a.0))
            },
            VmMemoryError::IOError(e) => GuestMemoryError::IOError(e),
            VmMemoryError::PartialBuffer { expected, completed } => {
                GuestMemoryError::PartialBuffer { expected, completed }
            },
            VmMemoryError::InvalidBackendAddress => GuestMemoryError::InvalidBackendAddress,
            VmMemoryError::HostAddressNotAvailable => GuestMemoryError::HostAddressNotAvailable,
            VmMemoryError::CallbackOutOfRange => GuestMemoryError::CallbackOutOfRange,
            VmMemoryError::GuestAddressOverflow => GuestMemoryError::GuestAddressOverflow,
        })
    }

    /// `Bytes::write_slice` on guest memory.
    ///
    /// It writes the bytes up to the first hole, and succeeds exactly if that is all of them. An
    /// unmapped `addr` gives `InvalidGuestAddress`, a hole behind it `PartialBuffer`. The record of
    /// accesses gains the bytes that were written, and the addresses written to are marked dirty:
    /// each region's bitmap keeps them by page, and a region without one ignores them. That the
    /// bytes are still there later is not stated: the guest shares the memory.
    #[verifier::external_body]
    pub(crate) fn write_slice(&mut self, data: &[u8], addr: GuestAddress) -> (done: Result<
        (),
        GuestMemoryError,
    >)
        requires
            old(self).wf(),
        ensures
            done == copy_outcome(old(self).regions(), addr, data@.len()),
            final(self).regions() == old(self).regions(),
            final(self).dirty() == old(self).dirty().union(
                address_range(
                    addr.0 as int,
                    mapped_prefix(old(self).regions(), addr.0 as int, data@.len()),
                ),
            ),
            final(self).accesses() == old(self).accesses().push(
                GuestAccess::Write {
                    addr,
                    data: data@.take(
                        mapped_prefix(old(self).regions(), addr.0 as int, data@.len()) as int,
                    ),
                },
            ),
    {
        let at = vm_memory::GuestAddress(addr.0);
        self.inner.write_slice(data, at).map_err(|e| match e {
            VmMemoryError::InvalidGuestAddress(a) => {
                GuestMemoryError::InvalidGuestAddress(GuestAddress(a.0))
            },
            VmMemoryError::IOError(e) => GuestMemoryError::IOError(e),
            VmMemoryError::PartialBuffer { expected, completed } => {
                GuestMemoryError::PartialBuffer { expected, completed }
            },
            VmMemoryError::InvalidBackendAddress => GuestMemoryError::InvalidBackendAddress,
            VmMemoryError::HostAddressNotAvailable => GuestMemoryError::HostAddressNotAvailable,
            VmMemoryError::CallbackOutOfRange => GuestMemoryError::CallbackOutOfRange,
            VmMemoryError::GuestAddressOverflow => GuestMemoryError::GuestAddressOverflow,
        })
    }

    /// `Bytes::read_slice` on guest memory.
    ///
    /// It reads the bytes up to the first hole, leaves the rest of `buf` as it was, and succeeds
    /// exactly if there is no rest. An unmapped `addr` gives `InvalidGuestAddress`, a hole behind
    /// it `PartialBuffer`. The record of accesses gains the bytes that were read; which bytes the
    /// guest holds there is left open.
    #[verifier::external_body]
    pub(crate) fn read_slice(&mut self, buf: &mut [u8], addr: GuestAddress) -> (done: Result<
        (),
        GuestMemoryError,
    >)
        requires
            old(self).wf(),
        ensures
            done == copy_outcome(old(self).regions(), addr, old(buf)@.len()),
            final(buf)@.len() == old(buf)@.len(),
            ({
                let n = mapped_prefix(old(self).regions(), addr.0 as int, old(buf)@.len()) as int;
                &&& final(buf)@.skip(n) == old(buf)@.skip(n)
                &&& final(self).accesses() == old(self).accesses().push(
                    GuestAccess::Read { addr, data: final(buf)@.take(n) },
                )
            }),
            final(self).regions() == old(self).regions(),
            final(self).dirty() == old(self).dirty(),
    {
        let at = vm_memory::GuestAddress(addr.0);
        self.inner.read_slice(buf, at).map_err(|e| match e {
            VmMemoryError::InvalidGuestAddress(a) => {
                GuestMemoryError::InvalidGuestAddress(GuestAddress(a.0))
            },
            VmMemoryError::IOError(e) => GuestMemoryError::IOError(e),
            VmMemoryError::PartialBuffer { expected, completed } => {
                GuestMemoryError::PartialBuffer { expected, completed }
            },
            VmMemoryError::InvalidBackendAddress => GuestMemoryError::InvalidBackendAddress,
            VmMemoryError::HostAddressNotAvailable => GuestMemoryError::HostAddressNotAvailable,
            VmMemoryError::CallbackOutOfRange => GuestMemoryError::CallbackOutOfRange,
            VmMemoryError::GuestAddressOverflow => GuestMemoryError::GuestAddressOverflow,
        })
    }

    /// `GuestMemory::find_region`: the region that holds `addr`, as first address and length, or
    /// `None` if no region does.
    #[verifier::external_body]
    fn find_region(&self, addr: GuestAddress) -> (region: Option<(u64, u64)>)
        requires
            self.wf(),
        ensures
            match region {
                Some(r) => self.regions().contains(r) && in_region(r, addr.0 as int),
                None => !is_mapped(self.regions(), addr.0 as int),
            },
    {
        let region = self.inner.find_region(vm_memory::GuestAddress(addr.0));
        region.map(|r| (r.start_addr().0, r.len()))
    }

    /// `Bitmap::mark_dirty` on the bitmap of the slice that `GuestMemory::get_slice` gives.
    ///
    /// The addresses of the slice are marked dirty. The bitmap keeps them by page, and a region
    /// without a bitmap ignores them.
    #[verifier::external_body]
    fn mark_slice_dirty(&mut self, addr: GuestAddress, len: usize)
        requires
            old(self).wf(),
            in_one_region(old(self).regions(), addr.0 as int, len as nat),
        ensures
            final(self).regions() == old(self).regions(),
            final(self).accesses() == old(self).accesses(),
            final(self).dirty() == old(self).dirty().union(
                address_range(addr.0 as int, len as nat),
            ),
    {
        if let Ok(slice) = self.inner.get_slice(vm_memory::GuestAddress(addr.0), len) {
            slice.bitmap().mark_dirty(0, len);
        }
    }

    /// Marks the `len` addresses from `addr` on dirty, up to the first hole.
    pub fn mark_dirty(&mut self, addr: GuestAddress, len: usize)
        requires
            old(self).wf(),
        ensures
            final(self).regions() == old(self).regions(),
            final(self).accesses() == old(self).accesses().push(
                GuestAccess::Mark {
                    addr,
                    len: mapped_prefix(old(self).regions(), addr.0 as int, len as nat),
                },
            ),
            final(self).dirty() == old(self).dirty().union(
                address_range(
                    addr.0 as int,
                    mapped_prefix(old(self).regions(), addr.0 as int, len as nat),
                ),
            ),
    {
        let mut cur: u64 = addr.0;
        let mut left: usize = len;
        let ghost regions = self.regions();
        let ghost dirty = self.dirty();
        let ghost accesses = self.accesses();
        assert(dirty.union(address_range(addr.0 as int, 0)) =~= dirty);
        while left > 0
            invariant_except_break
                self.wf(),
                addr.0 <= cur,
                left + (cur - addr.0) == len,
                mapped_prefix(regions, addr.0 as int, len as nat) == (cur - addr.0)
                    + mapped_prefix(regions, cur as int, left as nat),
                self.dirty() == dirty.union(address_range(addr.0 as int, (cur - addr.0) as nat)),
                self.regions() == regions,
                self.accesses() == accesses,
            ensures
                self.regions() == regions,
                self.accesses() == accesses,
                self.dirty() == dirty.union(
                    address_range(
                        addr.0 as int,
                        mapped_prefix(regions, addr.0 as int, len as nat),
                    ),
                ),
            decreases left,
        {
            let (start, size): (u64, u64) = match self.find_region(GuestAddress(cur)) {
                Some(region) => region,
                None => {
                    break;
                },
            };
            let ghost i = choose|i: int| 0 <= i < regions.len() && regions[i] == (start, size);
            let room: u64 = start + size - cur;
            let step: usize = if room < left as u64 {
                room as usize
            } else {
                left
            };
            proof {
                assert(in_region(regions[i], cur as int));
                lemma_prefix_splits(regions, cur as int, left as nat, step as nat);
                assert(address_range(addr.0 as int, (cur - addr.0) as nat).union(
                    address_range(cur as int, step as nat),
                ) =~= address_range(addr.0 as int, (cur - addr.0 + step) as nat));
            }
            self.mark_slice_dirty(GuestAddress(cur), step);
            assert(self.dirty() =~= dirty.union(
                address_range(addr.0 as int, (cur - addr.0 + step) as nat),
            ));
            cur = cur + step as u64;
            left = left - step;
        }
        self.accesses = Ghost(
            self.accesses@.push(
                GuestAccess::Mark {
                    addr,
                    len: mapped_prefix(regions, addr.0 as int, len as nat),
                },
            ),
        );
    }
}

/// A mapped prefix is no longer than the range it belongs to.
pub proof fn lemma_prefix_bounded(regions: Seq<(u64, u64)>, addr: int, len: nat)
    ensures
        mapped_prefix(regions, addr, len) <= len,
    decreases len,
{
    if len > 0 && is_mapped(regions, addr) {
        lemma_prefix_bounded(regions, addr + 1, (len - 1) as nat);
    }
}

/// Addresses that one region holds extend a mapped prefix by their number.
proof fn lemma_prefix_splits(regions: Seq<(u64, u64)>, addr: int, len: nat, step: nat)
    requires
        step <= len,
        forall|a: int| addr <= a < addr + step ==> is_mapped(regions, a),
    ensures
        mapped_prefix(regions, addr, len) == step + mapped_prefix(
            regions,
            addr + step,
            (len - step) as nat,
        ),
    decreases step,
{
    if step > 0 {
        assert(is_mapped(regions, addr));
        lemma_prefix_splits(regions, addr + 1, (len - 1) as nat, (step - 1) as nat);
    }
}

} // verus!
