//! Bounce buffers for unbuffered file I/O.

use crate::memory::GuestAddress;
use crate::storage::Storage;
use vstd::prelude::*;

verus! {

/// The alignment that unbuffered file I/O asks of the memory it moves data from and to.
///
/// A multiple of the page size satisfies devices with 512-byte and with 4096-byte blocks alike.
pub const DIRECT_IO_ALIGN: usize = 4096;

/// Whether a transfer at `addr` has to go through a bounce buffer.
pub open spec fn needs_bounce(direct: bool, addr: GuestAddress) -> bool {
    direct && addr.0 as int % DIRECT_IO_ALIGN as int != 0
}

/// Decides `needs_bounce`.
pub(crate) fn bounces(direct: bool, addr: GuestAddress) -> (b: bool)
    ensures
        b == needs_bounce(direct, addr),
{
    direct && addr.0 % (DIRECT_IO_ALIGN as u64) != 0
}

/// The distance from `address` up to the next multiple of `align`.
pub fn padding(address: usize, align: usize) -> (n: usize)
    requires
        align > 0,
    ensures
        n < align,
        (address + n) % align as int == 0,
{
    let skew: usize = address % align;
    if skew == 0 {
        0
    } else {
        proof {
            let q = address as int / align as int;
            vstd::arithmetic::div_mod::lemma_fundamental_div_mod(address as int, align as int);
            assert(address + (align - skew) == (q + 1) * align) by (nonlinear_arith)
                requires
                    address == align * q + skew,
            ;
            vstd::arithmetic::div_mod::lemma_mod_multiples_basic(q + 1, align as int);
        }
        align - skew
    }
}

/// A zero-filled block of memory whose first byte sits at a multiple of a chosen alignment.
#[derive(Debug)]
pub struct AlignedBuf {
    storage: Storage,
    start: usize,
    len: usize,
}

/// Whether an allocation can be as large as a buffer of `len` bytes at a multiple of `align` needs
/// it to be.
pub open spec fn can_reserve(len: int, align: int) -> bool {
    align > 0 && len + align <= isize::MAX
}

/// How much memory a buffer of `len` bytes at a multiple of `align` takes, wherever that memory
/// turns out to lie. `None` if `align` is 0 or if no allocation can be that large.
pub fn reservation(len: usize, align: usize) -> (total: Option<usize>)
    ensures
        total == if can_reserve(len as int, align as int) {
            Some((len + align) as usize)
        } else {
            None
        },
{
    if align == 0 || len > isize::MAX as usize || align > isize::MAX as usize - len {
        return None;
    }
    Some(len + align)
}

impl AlignedBuf {
    /// The bytes of the buffer.
    pub closed spec fn view(&self) -> Seq<u8> {
        self.storage@.subrange(self.start as int, self.start + self.len)
    }

    /// The address of the first byte.
    pub closed spec fn ptr(self) -> usize {
        (self.storage.place() + self.start) as usize
    }

    /// Whether the `len` addresses from `address` on belong to the memory that the buffer keeps.
    pub closed spec fn owns(self, address: int, len: nat) -> bool {
        self.storage.owns(address, len)
    }

    /// The bytes at the `len` addresses from `address` on, in the memory that the buffer keeps.
    pub closed spec fn memory_at(self, address: int, len: nat) -> Seq<u8> {
        self.storage.bytes_at(address, len)
    }

    /// The buffer lies inside its storage, and the storage inside the address space.
    pub closed spec fn wf(self) -> bool {
        &&& self.start + self.len <= self.storage@.len()
        &&& self.storage.place() + self.storage@.len() <= usize::MAX
    }

    /// Unbuffered I/O of `count` bytes can use the buffer.
    pub open spec fn fits(self, count: u32) -> bool {
        &&& self.wf()
        &&& self@.len() == count
        &&& self.ptr() as int % DIRECT_IO_ALIGN as int == 0
    }

    /// A buffer of `len` zero bytes at a multiple of `align`.
    ///
    /// `None` if `align` is 0, if no allocation can be that large, or if the allocator refuses.
    /// When the allocator refuses is not stated; `from_reserved` says what follows either way.
    pub fn new(len: usize, align: usize) -> (buf: Option<AlignedBuf>)
        ensures
            !can_reserve(len as int, align as int) ==> buf is None,
            buf matches Some(b) ==> {
                &&& b.wf()
                &&& b@ == Seq::new(len as nat, |i: int| 0u8)
                &&& b.ptr() as int % align as int == 0
            },
    {
        let mut memory: Vec<u8> = Vec::new();
        let reserved = match reservation(len, align) {
            Some(total) => match memory.try_reserve(total) {
                Ok(_) => Some(memory),
                Err(_) => None,
            },
            None => None,
        };
        AlignedBuf::from_reserved(reserved, len, align)
    }

    /// A buffer of `len` zero bytes at a multiple of `align`, given what reserving the memory for
    /// it came to. What `reserved` held before is dropped.
    ///
    /// `None` exactly if there is no memory, if `align` is 0, or if no allocation can be that
    /// large.
    pub fn from_reserved(reserved: Option<Vec<u8>>, len: usize, align: usize) -> (buf: Option<
        AlignedBuf,
    >)
        ensures
            buf is Some <==> reserved is Some && can_reserve(len as int, align as int),
            buf matches Some(b) ==> {
                &&& b.wf()
                &&& b@ == Seq::new(len as nat, |i: int| 0u8)
                &&& b.ptr() as int % align as int == 0
            },
    {
        let total: usize = match reservation(len, align) {
            Some(n) => n,
            None => {
                return None;
            },
        };
        let mut memory = match reserved {
            Some(m) => m,
            None => {
                return None;
            },
        };
        memory.clear();
        memory.resize(total, 0);
        let storage = Storage::locate(memory);
        let start: usize = padding(storage.address(), align);
        let buf = AlignedBuf { storage, start, len };
        assert(buf@ =~= Seq::new(len as nat, |i: int| 0u8));
        Some(buf)
    }

    /// How many bytes the buffer holds.
    pub fn len(&self) -> (n: usize)
        requires
            self.wf(),
        ensures
            n == self@.len(),
    {
        self.len
    }

    /// The address of the first byte.
    pub fn as_ptr(&self) -> (address: usize)
        requires
            self.wf(),
        ensures
            address == self.ptr(),
    {
        self.storage.address() + self.start
    }

    /// The bytes.
    pub fn as_slice(&self) -> (bytes: &[u8])
        requires
            self.wf(),
        ensures
            bytes@ == self@,
    {
        let bytes = self.storage.part(self.start, self.len);
        assert(bytes@ =~= self@);
        bytes
    }

    /// The bytes, to be overwritten. The buffer stays where it is.
    pub fn as_mut_slice(&mut self) -> (bytes: &mut [u8])
        requires
            old(self).wf(),
        ensures
            bytes@ == old(self)@,
            final(bytes)@.len() == bytes@.len() ==> {
                &&& final(self).wf()
                &&& final(self)@ == final(bytes)@
                &&& final(self).ptr() == old(self).ptr()
            },
    {
        let start: usize = self.start;
        let len: usize = self.len;
        let (head, rest) = self.storage.as_mut_slice().split_at_mut(start);
        let (bytes, tail) = rest.split_at_mut(len);
        bytes
    }
}

/// The bytes of a buffer are what lies at its address, in memory that it keeps.
pub proof fn lemma_bytes_lie_at_ptr(buf: AlignedBuf, n: nat)
    requires
        buf.wf(),
        n <= buf@.len(),
    ensures
        buf.owns(buf.ptr() as int, n),
        buf.memory_at(buf.ptr() as int, n) == buf@.take(n as int),
{
    assert(buf.memory_at(buf.ptr() as int, n) =~= buf@.take(n as int));
}

} // verus!
