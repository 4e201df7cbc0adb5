//! Submissions to an io_uring, and what comes back.

use vstd::prelude::*;

verus! {

/// How many submission entries a ring of the block device has.
pub const IO_URING_NUM_ENTRIES: u16 = 128;

/// What a submission asks the kernel to do.
#[derive(Clone, Copy, Debug, PartialEq, Eq, Structural)]
pub enum OpCode {
    /// Read from a file into memory.
    Read,
    /// Write from memory to a file.
    Write,
    /// Flush a file to its device.
    Fsync,
}

/// A limit on what a ring accepts.
#[derive(Clone, Copy, Debug, PartialEq, Eq, Structural)]
pub enum Restriction {
    /// This operation may be submitted.
    AllowOpCode(OpCode),
    /// Only registered files may be named.
    RequireFixedFds,
}

/// The parameters of a new ring.
#[derive(Debug)]
pub struct RingSetup<'a, F> {
    /// How many submission entries it has.
    pub num_entries: u32,
    /// The files that are registered with it. Operations name them by their position.
    pub files: Vec<&'a F>,
    /// What may be submitted to it. Anything not allowed here is refused.
    pub restrictions: Vec<Restriction>,
    /// The event descriptor that completions are signalled on.
    pub eventfd: Option<i32>,
}

/// One submission.
#[derive(Debug)]
pub struct Operation<T> {
    /// The registered file.
    pub fd: u32,
    /// What to do.
    pub opcode: OpCode,
    /// The host address of the memory to move data from or to.
    pub addr: Option<usize>,
    /// How many bytes to move.
    pub len: Option<u32>,
    /// Where in the file to start.
    pub offset: Option<u64>,
    /// What comes back with the completion.
    pub user_data: T,
}

impl<T> Operation<T> {
    /// Reads `len` bytes at `offset` of the file into memory at `addr`.
    pub fn read(fd: u32, addr: usize, len: u32, offset: u64, user_data: T) -> (op: Operation<T>)
        ensures
            op == (Operation {
                fd,
                opcode: OpCode::Read,
                addr: Some(addr),
                len: Some(len),
                offset: Some(offset),
                user_data,
            }),
    {
        Operation {
            fd,
            opcode: OpCode::Read,
            addr: Some(addr),
            len: Some(len),
            offset: Some(offset),
            user_data,
        }
    }

    /// Writes `len` bytes from memory at `addr` to `offset` of the file.
    pub fn write(fd: u32, addr: usize, len: u32, offset: u64, user_data: T) -> (op: Operation<T>)
        ensures
            op == (Operation {
                fd,
                opcode: OpCode::Write,
                addr: Some(addr),
                len: Some(len),
                offset: Some(offset),
                user_data,
            }),
    {
        Operation {
            fd,
            opcode: OpCode::Write,
            addr: Some(addr),
            len: Some(len),
            offset: Some(offset),
            user_data,
        }
    }

    /// Flushes the file.
    pub fn fsync(fd: u32, user_data: T) -> (op: Operation<T>)
        ensures
            op == (Operation {
                fd,
                opcode: OpCode::Fsync,
                addr: None,
                len: None,
                offset: None,
                user_data,
            }),
    {
        Operation { fd, opcode: OpCode::Fsync, addr: None, len: None, offset: None, user_data }
    }
}

/// The number of bytes that the completion result `res` stands for: a negative result is an
/// error, which moved none.
pub open spec fn completed_bytes(res: i32) -> u32 {
    if res >= 0 {
        res as u32
    } else {
        0
    }
}

/// One completion.
#[derive(Debug)]
pub struct Cqe<T> {
    /// The result: a byte count, or a negated error number.
    pub res: i32,
    /// What went in with the submission.
    pub user_data: T,
}

impl<T> Cqe<T> {
    /// How many bytes the operation moved.
    pub fn count(&self) -> (n: u32)
        ensures
            n == completed_bytes(self.res),
            self.res >= 0 ==> n == self.res,
            self.res < 0 ==> n == 0,
    {
        if self.res >= 0 {
            self.res as u32
        } else {
            0
        }
    }
}

} // verus!
