//! Memory of this process whose place is known.

use vstd::prelude::*;
use vstd::slice::slice_subrange;

verus! {

/// A block of memory together with the address that it lies at.
///
/// Nothing here lets the block grow, shrink or be replaced, so it stays at that address for as
/// long as the value lives, wherever the value itself is moved to.
#[derive(Debug)]
pub struct Storage {
    bytes: Vec<u8>,
    place: usize,
}

impl Storage {
    /// The bytes of the block.
    pub closed spec fn view(&self) -> Seq<u8> {
        self.bytes@
    }

    /// The address of the first byte.
    pub closed spec fn place(self) -> usize {
        self.place
    }

    /// Whether the `len` addresses from `address` on belong to the block.
    pub open spec fn owns(self, address: int, len: nat) -> bool {
        self.place() <= address && address + len <= self.place() + self@.len()
    }

    /// The bytes at the `len` addresses from `address` on.
    pub open spec fn bytes_at(self, address: int, len: nat) -> Seq<u8> {
        self@.subrange(address - self.place(), address - self.place() + len)
    }

    /// `Vec::as_mut_ptr`: the address of the first element, kept with the elements themselves.
    ///
    /// The elements lie in one allocation, and no allocation reaches past the end of the address
    /// space. Which address it is depends on the allocator, and is left open: it is known only as
    /// the place of this block.
    #[verifier::external_body]
    pub(crate) fn locate(bytes: Vec<u8>) -> (storage: Storage)
        ensures
            storage@ == bytes@,
            storage.place() + bytes@.len() <= usize::MAX,
    {
        let mut bytes = bytes;
        let place: usize = bytes.as_mut_ptr() as usize;
        Storage { bytes, place }
    }

    /// The address of the first byte.
    pub fn address(&self) -> (address: usize)
        ensures
            address == self.place(),
    {
        self.place
    }

    /// The `len` bytes from position `start` on.
    pub fn part(&self, start: usize, len: usize) -> (bytes: &[u8])
        requires
            start + len <= self@.len(),
        ensures
            bytes@ == self.bytes_at(self.place() + start, len as nat),
    {
        assert(start + len <= self.bytes.len());
        slice_subrange(self.bytes.as_slice(), start, start + len)
    }

    /// The bytes, to be overwritten. The block stays where it is.
    pub fn as_mut_slice(&mut self) -> (bytes: &mut [u8])
        ensures
            bytes@ == old(self)@,
            final(self)@ == final(bytes)@,
            final(self).place() == old(self).place(),
    {
        self.bytes.as_mut_slice()
    }
}

} // verus!
