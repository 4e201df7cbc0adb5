//! The engine that moves data between a file and guest memory with blocking file I/O.
//!
//! A transfer is a sequence of file operations with decisions and guest memory accesses between
//! them. Each value here stands for the file operation that is due; handing its outcome to the
//! value gives what comes next.

use crate::buffer;
use crate::buffer::AlignedBuf;
use crate::buffer::DIRECT_IO_ALIGN;
use crate::buffer::bounces;
use crate::memory;
use crate::memory::GuestAccess;
use crate::memory::GuestAddress;
use crate::memory::GuestMemoryError;
use crate::memory::GuestMemoryMmap;
use vstd::prelude::*;

verus! {

/// Why an operation of the engine failed.
#[derive(Debug)]
pub enum SyncIoError {
    /// The file could not be flushed.
    Flush(std::io::Error),
    /// The file could not be positioned.
    Seek(std::io::Error),
    /// The file could not be synced to its device.
    SyncAll(std::io::Error),
    /// Data could not be moved from or to guest memory.
    Transfer(GuestMemoryError),
    /// Data could not be moved between the file and the bounce buffer.
    BounceBuffer(std::io::Error),
    /// No aligned bounce buffer could be allocated.
    BounceBufferAlloc,
}

/// Which way the data goes.
#[derive(Clone, Copy, Debug, PartialEq, Eq, Structural)]
pub enum Direction {
    /// From the file to guest memory.
    Read,
    /// From guest memory to the file.
    Write,
}

/// A transfer whose file has yet to be positioned at `offset`.
#[derive(Clone, Copy, Debug, PartialEq, Eq, Structural)]
pub struct Transfer {
    /// Which way the data goes.
    pub direction: Direction,
    /// Where in the file.
    pub offset: u64,
    /// Where in guest memory.
    pub addr: GuestAddress,
    /// How many bytes.
    pub count: u32,
    /// Whether the data goes through a bounce buffer.
    pub bounced: bool,
}

/// What a transfer does next.
#[derive(Debug)]
pub enum TransferStep {
    /// Move all bytes between the file and the bounce buffer.
    Bounced(BouncedTransfer),
    /// Move all bytes between the file and the slice of guest memory.
    Unbounced(UnbouncedTransfer),
    /// Nothing: this is the outcome.
    Done(Result<u32, SyncIoError>),
}

/// A transfer that has its bounce buffer. The buffer of a write holds the guest's bytes.
#[derive(Debug)]
pub struct BouncedTransfer {
    /// The transfer.
    pub transfer: Transfer,
    /// The bounce buffer.
    pub buf: AlignedBuf,
}

/// A transfer straight between the file and guest memory, which one slice of it covers.
#[derive(Clone, Copy, Debug, PartialEq, Eq, Structural)]
pub struct UnbouncedTransfer {
    /// The transfer.
    pub transfer: Transfer,
    /// Where the slice starts on the host.
    pub host: usize,
}

/// The outcome of a bounced transfer whose file operation answered `answer`. A read still has to
/// copy its bytes to guest memory.
pub open spec fn bounced_outcome(
    transfer: Transfer,
    regions: Seq<(u64, u64)>,
    answer: Result<(), std::io::Error>,
) -> Result<u32, SyncIoError> {
    match answer {
        Err(error) => Err(SyncIoError::BounceBuffer(error)),
        Ok(_) => match transfer.direction {
            Direction::Write => Ok(transfer.count),
            Direction::Read => match memory::copy_outcome(
                regions,
                transfer.addr,
                transfer.count as nat,
            ) {
                Ok(_) => Ok(transfer.count),
                Err(error) => Err(SyncIoError::Transfer(error)),
            },
        },
    }
}

/// The outcome of a transfer straight between the file and guest memory.
pub open spec fn unbounced_outcome(
    transfer: Transfer,
    answer: Result<(), GuestMemoryError>,
) -> Result<u32, SyncIoError> {
    match answer {
        Ok(_) => Ok(transfer.count),
        Err(error) => Err(SyncIoError::Transfer(error)),
    }
}

impl Transfer {
    /// How the transfer goes on once the file is positioned, where guest memory has `regions` and
    /// the record of accesses goes from `before` to `after`: with `step`.
    pub open spec fn goes_on(
        self,
        regions: Seq<(u64, u64)>,
        before: Seq<GuestAccess>,
        after: Seq<GuestAccess>,
        step: TransferStep,
    ) -> bool {
        if !self.bounced {
            match memory::slice_failure(regions, self.addr, self.count as nat) {
                None => {
                    &&& step matches TransferStep::Unbounced(u)
                    &&& u.transfer == self
                    &&& after == before.push(
                        GuestAccess::Slice {
                            addr: self.addr,
                            len: self.count as nat,
                            host: u.host,
                        },
                    )
                },
                Some(error) => {
                    &&& step == TransferStep::Done(Err(SyncIoError::Transfer(error)))
                    &&& after == before
                },
            }
        } else if !buffer::can_reserve(self.count as int, DIRECT_IO_ALIGN as int) {
            &&& step == TransferStep::Done(Err(SyncIoError::BounceBufferAlloc))
            &&& after == before
        } else {
            match step {
                TransferStep::Bounced(b) => {
                    &&& b.transfer == self
                    &&& b.buf.fits(self.count)
                    &&& match self.direction {
                        Direction::Read => after == before,
                        Direction::Write => {
                            &&& memory::copy_outcome(regions, self.addr, self.count as nat) is Ok
                            &&& after == before.push(
                                GuestAccess::Read { addr: self.addr, data: b.buf@ },
                            )
                        },
                    }
                },
                TransferStep::Unbounced(_) => false,
                TransferStep::Done(outcome) => {
                    ||| {
                        &&& outcome == Err::<u32, SyncIoError>(SyncIoError::BounceBufferAlloc)
                        &&& after == before
                    }
                    ||| {
                        &&& self.direction == Direction::Write
                        &&& memory::copy_outcome(
                            regions,
                            self.addr,
                            self.count as nat,
                        ) matches Err(error)
                        &&& outcome == Err::<u32, SyncIoError>(SyncIoError::Transfer(error))
                        &&& memory::one_read_more(
                            before,
                            after,
                            self.addr,
                            memory::mapped_prefix(regions, self.addr.0 as int, self.count as nat),
                        )
                    }
                },
            }
        }
    }

    /// Goes on from the answer to positioning the file.
    ///
    /// A transfer that is not bounced is refused unless one slice of guest memory covers it. A
    /// bounced transfer gets its buffer now, and a bounced write has the guest's bytes copied
    /// into it; `BounceBufferAlloc` comes, before guest memory is touched, if no allocation can be
    /// that large, or if the allocator refuses, and nothing is said of when it does.
    pub fn sought(self, mem: &mut GuestMemoryMmap, answer: Result<u64, std::io::Error>) -> (step:
        TransferStep)
        requires
            old(mem).wf(),
        ensures
            final(mem).regions() == old(mem).regions(),
            final(mem).dirty() == old(mem).dirty(),
            answer matches Err(error) ==> {
                &&& step == TransferStep::Done(Err(SyncIoError::Seek(error)))
                &&& final(mem).accesses() == old(mem).accesses()
            },
            !(step matches TransferStep::Done(Ok(_))),
            step matches TransferStep::Unbounced(u) ==> u.transfer == self && !self.bounced,
            step matches TransferStep::Bounced(b) ==> b.transfer == self && self.bounced && b.wf(),
            answer is Ok && !self.bounced && memory::in_one_region(
                old(mem).regions(),
                self.addr.0 as int,
                self.count as nat,
            ) ==> step is Unbounced,
            answer is Ok ==> self.goes_on(
                old(mem).regions(),
                old(mem).accesses(),
                final(mem).accesses(),
                step,
            ),
    {
        match answer {
            Ok(_) => {},
            Err(error) => {
                return TransferStep::Done(Err(SyncIoError::Seek(error)));
            },
        }
        if !self.bounced {
            return match mem.get_slice(self.addr, self.count as usize) {
                Ok(host) => TransferStep::Unbounced(UnbouncedTransfer { transfer: self, host }),
                Err(error) => TransferStep::Done(Err(SyncIoError::Transfer(error))),
            };
        }
        let buf = AlignedBuf::new(self.count as usize, DIRECT_IO_ALIGN);
        self.with_buffer(mem, buf)
    }

    /// Goes on from the outcome of allocating the bounce buffer. A write has the guest's bytes
    /// copied into the buffer, which stays where it is.
    pub fn with_buffer(self, mem: &mut GuestMemoryMmap, buf: Option<AlignedBuf>) -> (step:
        TransferStep)
        requires
            old(mem).wf(),
            buf matches Some(b) ==> b.wf() && b@.len() == self.count,
        ensures
            final(mem).regions() == old(mem).regions(),
            final(mem).dirty() == old(mem).dirty(),
            match (buf, self.direction) {
                (None, _) => {
                    &&& step == TransferStep::Done(Err(SyncIoError::BounceBufferAlloc))
                    &&& final(mem).accesses() == old(mem).accesses()
                },
                (Some(given), Direction::Read) => {
                    &&& step == TransferStep::Bounced(
                        BouncedTransfer { transfer: self, buf: given },
                    )
                    &&& final(mem).accesses() == old(mem).accesses()
                },
                (Some(given), Direction::Write) => match memory::copy_outcome(
                    old(mem).regions(),
                    self.addr,
                    self.count as nat,
                ) {
                    Ok(_) => {
                        &&& step matches TransferStep::Bounced(b)
                        &&& b.transfer == self
                        &&& b.wf()
                        &&& b.buf.ptr() == given.ptr()
                        &&& final(mem).accesses() == old(mem).accesses().push(
                            GuestAccess::Read { addr: self.addr, data: b.buf@ },
                        )
                    },
                    Err(error) => {
                        &&& step == TransferStep::Done(Err(SyncIoError::Transfer(error)))
                        &&& memory::one_read_more(
                            old(mem).accesses(),
                            final(mem).accesses(),
                            self.addr,
                            memory::mapped_prefix(
                                old(mem).regions(),
                                self.addr.0 as int,
                                self.count as nat,
                            ),
                        )
                    },
                },
            },
    {
        let mut buf = match buf {
            Some(b) => b,
            None => {
                return TransferStep::Done(Err(SyncIoError::BounceBufferAlloc));
            },
        };
        match self.direction {
            Direction::Read => {},
            Direction::Write => {
                proof {
                    memory::lemma_prefix_bounded(
                        mem.regions(),
                        self.addr.0 as int,
                        self.count as nat,
                    );
                }
                match mem.read_slice(buf.as_mut_slice(), self.addr) {
                    Ok(_) => {
                        assert(buf@.take(self.count as int) =~= buf@);
                    },
                    Err(error) => {
                        assert(mem.accesses().drop_last() =~= old(mem).accesses());
                        return TransferStep::Done(Err(SyncIoError::Transfer(error)));
                    },
                }
            },
        }
        TransferStep::Bounced(BouncedTransfer { transfer: self, buf })
    }
}

impl BouncedTransfer {
    /// The buffer is intact and has the length of the transfer.
    pub open spec fn wf(self) -> bool {
        self.buf.wf() && self.buf@.len() == self.transfer.count
    }

    /// The accesses to guest memory that follow the file's answer.
    pub open spec fn moved_accesses(
        self,
        regions: Seq<(u64, u64)>,
        answer: Result<(), std::io::Error>,
    ) -> Seq<GuestAccess> {
        if answer is Ok && self.transfer.direction == Direction::Read {
            seq![
                GuestAccess::Write {
                    addr: self.transfer.addr,
                    data: self.buf@.take(
                        memory::mapped_prefix(
                            regions,
                            self.transfer.addr.0 as int,
                            self.transfer.count as nat,
                        ) as int,
                    ),
                },
            ]
        } else {
            Seq::empty()
        }
    }

    /// The addresses that are marked dirty after the file's answer.
    pub open spec fn moved_dirty(
        self,
        regions: Seq<(u64, u64)>,
        answer: Result<(), std::io::Error>,
    ) -> Set<int> {
        if answer is Ok && self.transfer.direction == Direction::Read {
            memory::address_range(
                self.transfer.addr.0 as int,
                memory::mapped_prefix(
                    regions,
                    self.transfer.addr.0 as int,
                    self.transfer.count as nat,
                ),
            )
        } else {
            Set::empty()
        }
    }

    /// Goes on from the answer to moving all bytes between the file and the buffer. A read copies
    /// them on to guest memory, as far as it is mapped, which marks them dirty there.
    pub fn moved(self, mem: &mut GuestMemoryMmap, answer: Result<(), std::io::Error>) -> (outcome:
        Result<u32, SyncIoError>)
        requires
            old(mem).wf(),
            self.wf(),
        ensures
            outcome == bounced_outcome(self.transfer, old(mem).regions(), answer),
            outcome matches Ok(n) ==> n == self.transfer.count && answer is Ok,
            answer matches Err(error) ==> outcome == Err::<u32, SyncIoError>(
                SyncIoError::BounceBuffer(error),
            ),
            answer is Ok && self.transfer.direction == Direction::Write ==> outcome is Ok,
            final(mem).regions() == old(mem).regions(),
            final(mem).accesses() == old(mem).accesses() + self.moved_accesses(
                old(mem).regions(),
                answer,
            ),
            final(mem).dirty() == old(mem).dirty().union(
                self.moved_dirty(old(mem).regions(), answer),
            ),
    {
        match answer {
            Ok(_) => {},
            Err(error) => {
                return Err(SyncIoError::BounceBuffer(error));
            },
        }
        match self.transfer.direction {
            Direction::Write => Ok(self.transfer.count),
            Direction::Read => match mem.write_slice(self.buf.as_slice(), self.transfer.addr) {
                Ok(_) => Ok(self.transfer.count),
                Err(error) => Err(SyncIoError::Transfer(error)),
            },
        }
    }
}

impl UnbouncedTransfer {
    /// Takes the answer to moving all bytes between the file and the slice of guest memory.
    pub fn moved(self, answer: Result<(), GuestMemoryError>) -> (outcome: Result<u32, SyncIoError>)
        ensures
            outcome == unbounced_outcome(self.transfer, answer),
            answer is Ok ==> outcome == Ok::<u32, SyncIoError>(self.transfer.count),
            answer matches Err(error) ==> outcome == Err::<u32, SyncIoError>(
                SyncIoError::Transfer(error),
            ),
    {
        match answer {
            Ok(_) => Ok(self.transfer.count),
            Err(error) => Err(SyncIoError::Transfer(error)),
        }
    }
}

/// An I/O engine over the file `F`.
#[derive(Debug)]
pub struct SyncFileEngine<F> {
    file: F,
    direct: bool,
}

impl<F> SyncFileEngine<F> {
    /// The backing file.
    pub closed spec fn spec_file(self) -> F {
        self.file
    }

    /// Whether the file is accessed without the page cache.
    pub closed spec fn direct(self) -> bool {
        self.direct
    }

    /// An engine over `file`.
    pub fn from_file(file: F, direct: bool) -> (engine: SyncFileEngine<F>)
        ensures
            engine.spec_file() == file,
            engine.direct() == direct,
    {
        SyncFileEngine { file, direct }
    }

    /// The backing file.
    pub fn file(&self) -> (file: &F)
        ensures
            *file == self.spec_file(),
    {
        &self.file
    }

    /// The backing file, to read, write and position it.
    pub fn file_mut(&mut self) -> (file: &mut F)
        ensures
            *file == old(self).spec_file(),
            final(self).spec_file() == *final(file),
            final(self).direct() == old(self).direct(),
    {
        &mut self.file
    }

    /// Replaces the backing file and the direct flag.
    pub fn update_file(&mut self, file: F, direct: bool)
        ensures
            final(self).spec_file() == file,
            final(self).direct() == direct,
    {
        self.file = file;
        self.direct = direct;
    }

    /// Whether a transfer at `addr` needs a bounce buffer.
    pub fn needs_bounce_buf(&self, addr: GuestAddress) -> (b: bool)
        ensures
            b == buffer::needs_bounce(self.direct(), addr),
    {
        bounces(self.direct, addr)
    }

    /// Starts a read of `count` bytes at `offset` of the file into guest memory at `addr`.
    pub fn read(&self, offset: u64, addr: GuestAddress, count: u32) -> (transfer: Transfer)
        ensures
            transfer == (Transfer {
                direction: Direction::Read,
                offset,
                addr,
                count,
                bounced: buffer::needs_bounce(self.direct(), addr),
            }),
    {
        Transfer {
            direction: Direction::Read,
            offset,
            addr,
            count,
            bounced: self.needs_bounce_buf(addr),
        }
    }

    /// Starts a write of `count` bytes of guest memory at `addr` to `offset` of the file.
    pub fn write(&self, offset: u64, addr: GuestAddress, count: u32) -> (transfer: Transfer)
        ensures
            transfer == (Transfer {
                direction: Direction::Write,
                offset,
                addr,
                count,
                bounced: buffer::needs_bounce(self.direct(), addr),
            }),
    {
        Transfer {
            direction: Direction::Write,
            offset,
            addr,
            count,
            bounced: self.needs_bounce_buf(addr),
        }
    }

    /// Takes the answer to flushing the file, which forces all data out of the process. Only if
    /// that worked, the file is synced to its device next.
    pub fn flush(&self, flushed: Result<(), std::io::Error>) -> (next: Result<
        SyncAll,
        SyncIoError,
    >)
        ensures
            next == match flushed {
                Ok(_) => Ok::<SyncAll, SyncIoError>(SyncAll { }),
                Err(error) => Err(SyncIoError::Flush(error)),
            },
    {
        match flushed {
            Ok(_) => Ok(SyncAll { }),
            Err(error) => Err(SyncIoError::Flush(error)),
        }
    }
}

/// A flush whose file has yet to be synced to its device.
#[derive(Clone, Copy, Debug, PartialEq, Eq, Structural)]
pub struct SyncAll {

}

impl SyncAll {
    /// Takes the answer to syncing the file.
    pub fn synced(self, answer: Result<(), std::io::Error>) -> (done: Result<(), SyncIoError>)
        ensures
            done == match answer {
                Ok(_) => Ok::<(), SyncIoError>(()),
                Err(error) => Err(SyncIoError::SyncAll(error)),
            },
    {
        match answer {
            Ok(_) => Ok(()),
            Err(error) => Err(SyncIoError::SyncAll(error)),
        }
    }
}

} // verus!
