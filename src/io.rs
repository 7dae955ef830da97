//! Byte-stream interfaces that file and device drivers implement.
use vstd::prelude::*;

verus! {

/// Why a stream operation failed.
#[derive(Clone, Copy, Debug, PartialEq, Eq, Structural)]
pub enum FsError {
    FileNotFound,
    EndOfFile,
    InvalidOffset,
    NotSupported,
}

/// A source of bytes.
pub trait Read {
    /// Reads some bytes into `buf`, returning how many were read.
    fn read(&mut self, buf: &mut [u8]) -> Result<usize, FsError>;
}

/// A sink of bytes.
pub trait Write {
    /// Writes bytes from `buf`, returning how many were written.
    fn write(&mut self, buf: &[u8]) -> Result<usize, FsError>;

    /// Makes everything written so far reach its destination.
    fn flush(&mut self) -> Result<(), FsError>;
}

/// Where a seek moves the cursor to.
#[derive(Clone, Copy, Debug, PartialEq, Eq, Structural)]
pub enum SeekFrom {
    /// This many bytes from the start.
    Start(usize),
    /// The size of the object plus this offset.
    End(isize),
    /// The current position plus this offset.
    Current(isize),
}

/// A cursor within a byte stream.
pub trait Seek {
    /// Moves the cursor, returning the new position from the start.
    fn seek(&mut self, pos: SeekFrom) -> Result<usize, FsError>;
}

/// A file: readable, writable and seekable.
pub trait FileIO: Read + Write + Seek {}

} // verus!
