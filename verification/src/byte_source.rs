//! A seekable byte source over the host's byte-range read, which hands out
//! bounded pieces only.

use crate::text::append_bytes;
use vstd::prelude::*;

verus! {

/// Most bytes that one request to the host asks for.
pub const MAX_HOST_READ: usize = 32768;

/// Where to seek: to an absolute position, relative to the end of the file, or
/// relative to the cursor.
#[derive(Clone, Copy, Debug, PartialEq, Eq, Structural)]
pub enum SeekPos {
    Start(u64),
    End(i64),
    Current(i64),
}

/// A seek to a position before the start of the file.
#[derive(Clone, Copy, Debug, PartialEq, Eq, Structural)]
pub enum SeekError {
    InvalidSeek,
}

/// Why a read ended early.
#[derive(Clone, Copy, Debug, PartialEq, Eq, Structural)]
pub enum ReadError {
    /// The host delivered another number of bytes than it was asked for.
    ShortRead,
    /// Fewer bytes were read than an exact read needs.
    UnexpectedEof,
}

/// One request to the host: `length` bytes of file `fd` from `offset` on.
#[derive(Clone, Copy, Debug, PartialEq, Eq, Structural)]
pub struct HostRead {
    pub fd: u32,
    pub offset: u64,
    pub length: u32,
}

/// The position that a seek aims at. An absolute position is read as a signed
/// 64-bit number, so that one from 2^63 on counts as negative.
pub open spec fn seek_target(file_size: u64, cursor: u64, pos: SeekPos) -> int {
    match pos {
        SeekPos::Start(offset) => if offset <= i64::MAX {
            offset as int
        } else {
            offset - 0x1_0000_0000_0000_0000
        },
        SeekPos::End(offset) => file_size + offset,
        SeekPos::Current(offset) => cursor + offset,
    }
}

/// The cursor after a seek: 0 after one that aims before the start, else the
/// target, but not behind the end of the file.
pub open spec fn cursor_after_seek(file_size: u64, cursor: u64, pos: SeekPos) -> int {
    let target = seek_target(file_size, cursor, pos);
    if target < 0 {
        0
    } else if target > file_size {
        file_size as int
    } else {
        target
    }
}

/// The smaller of two numbers.
pub open spec fn least(a: int, b: int) -> int {
    if a < b {
        a
    } else {
        b
    }
}

/// A file of the host as a byte source with a cursor. At most one read is
/// under way; `remaining` is what it still has to fetch.
pub struct WasmFileReader {
    fd: u32,
    file_size: u64,
    cursor: u64,
    remaining: usize,
}

impl WasmFileReader {
    /// The host's handle of the file.
    pub closed spec fn fd(&self) -> u32 {
        self.fd
    }

    /// The size of the file in bytes.
    pub closed spec fn file_size(&self) -> u64 {
        self.file_size
    }

    /// The position of the next byte to read.
    pub closed spec fn cursor(&self) -> u64 {
        self.cursor
    }

    /// The bytes that the read under way still has to fetch.
    pub closed spec fn remaining(&self) -> usize {
        self.remaining
    }

    #[verifier::type_invariant]
    spec fn wf(&self) -> bool {
        self.cursor + self.remaining <= self.file_size
    }

    /// A source over file `fd` of `file_size` bytes, with the cursor at its
    /// start.
    pub fn new(fd: u32, file_size: u64) -> (r: WasmFileReader)
        ensures
            r.fd() == fd,
            r.file_size() == file_size,
            r.cursor() == 0,
            r.remaining() == 0,
    {
        WasmFileReader { fd, file_size, cursor: 0, remaining: 0 }
    }

    /// The cursor never lies behind the end of the file.
    pub fn stream_position(&self) -> (r: u64)
        ensures
            r == self.cursor(),
            r + self.remaining() <= self.file_size(),
    {
        proof {
            use_type_invariant(self);
        }
        self.cursor
    }

    /// The size of the file in bytes.
    pub fn size(&self) -> (r: u64)
        ensures
            r == self.file_size(),
    {
        self.file_size
    }

    /// Begins a read into a buffer of `buf_len` bytes and gives the number of
    /// bytes that it will deliver: the length of the buffer, cut down to what
    /// is left of the file behind the cursor.
    pub fn begin_read(&mut self, buf_len: usize) -> (r: usize)
        ensures
            r == least(buf_len as int, old(self).file_size() - old(self).cursor()),
            final(self).remaining() == r,
            final(self).cursor() == old(self).cursor(),
            final(self).fd() == old(self).fd(),
            final(self).file_size() == old(self).file_size(),
    {
        proof {
            use_type_invariant(&*self);
        }
        let left: u64 = self.file_size - self.cursor;
        let size: usize = if (buf_len as u64) < left {
            buf_len
        } else {
            left as usize
        };
        self.remaining = size;
        size
    }

    /// The next request to the host for the read under way: at most
    /// `MAX_HOST_READ` bytes from the cursor on. None when the read is done.
    pub fn next_request(&self) -> (r: Option<HostRead>)
        ensures
            r is Some <==> self.remaining() > 0,
            r matches Some(req) ==> req.fd == self.fd() && req.offset == self.cursor()
                && req.length == least(self.remaining() as int, MAX_HOST_READ as int),
    {
        if self.remaining == 0 {
            None
        } else {
            let length: usize = if self.remaining < MAX_HOST_READ {
                self.remaining
            } else {
                MAX_HOST_READ
            };
            Some(HostRead { fd: self.fd, offset: self.cursor, length: length as u32 })
        }
    }

    /// Takes the bytes that the host delivered for the last request: they are
    /// appended to `out` and the cursor moves behind them. Bytes of another
    /// number than requested end the read with an error and change nothing
    /// else.
    pub fn deliver(&mut self, out: &mut Vec<u8>, data: &[u8]) -> (r: Result<(), ReadError>)
        ensures
            final(self).fd() == old(self).fd(),
            final(self).file_size() == old(self).file_size(),
            r is Ok <==> old(self).remaining() > 0 && data@.len() == least(
                old(self).remaining() as int,
                MAX_HOST_READ as int,
            ),
            r is Ok ==> final(out)@ == old(out)@ + data@ && final(self).cursor() == old(self).cursor() + data@.len() && final(self).remaining() == old(self).remaining()
                - data@.len(),
            r matches Err(e) ==> e == ReadError::ShortRead && final(out)@ == old(out)@ && final(self).cursor() == old(self).cursor() && final(self).remaining() == 0,
    {
        proof {
            use_type_invariant(&*self);
        }
        let expected: usize = if self.remaining < MAX_HOST_READ {
            self.remaining
        } else {
            MAX_HOST_READ
        };
        if self.remaining == 0 || data.len() != expected {
            self.remaining = 0;
            return Err(ReadError::ShortRead);
        }
        append_bytes(out, data);
        self.remaining = self.remaining - expected;
        self.cursor = self.cursor + expected as u64;
        Ok(())
    }

    /// Whether a read that delivered `bytes_read` bytes filled a buffer of
    /// `buf_len` bytes.
    pub fn read_exact(buf_len: usize, bytes_read: usize) -> (r: Result<(), ReadError>)
        ensures
            r is Ok <==> bytes_read == buf_len,
            r matches Err(e) ==> e == ReadError::UnexpectedEof,
    {
        if bytes_read == buf_len {
            Ok(())
        } else {
            Err(ReadError::UnexpectedEof)
        }
    }

    /// Moves the cursor. A seek that aims before the start of the file fails
    /// and leaves the cursor at 0; any other leaves it at its target, but not
    /// behind the end of the file. A read under way is given up.
    pub fn seek(&mut self, pos: SeekPos) -> (r: Result<u64, SeekError>)
        ensures
            final(self).fd() == old(self).fd(),
            final(self).file_size() == old(self).file_size(),
            final(self).remaining() == 0,
            final(self).cursor() == cursor_after_seek(
                old(self).file_size(),
                old(self).cursor(),
                pos,
            ),
            r is Err <==> seek_target(old(self).file_size(), old(self).cursor(), pos) < 0,
            r matches Ok(c) ==> c == final(self).cursor(),
    {
        proof {
            use_type_invariant(&*self);
        }
        let target: i128 = match pos {
            SeekPos::Start(offset) => if offset <= i64::MAX as u64 {
                offset as i128
            } else {
                offset as i128 - 0x1_0000_0000_0000_0000i128
            },
            SeekPos::End(offset) => self.file_size as i128 + offset as i128,
            SeekPos::Current(offset) => self.cursor as i128 + offset as i128,
        };
        self.remaining = 0;
        if target < 0 {
            self.cursor = 0;
            return Err(SeekError::InvalidSeek);
        }
        self.cursor = if target > self.file_size as i128 {
            self.file_size
        } else {
            target as u64
        };
        Ok(self.cursor)
    }

    /// Moves the cursor to the start of the file.
    pub fn rewind(&mut self)
        ensures
            final(self).fd() == old(self).fd(),
            final(self).file_size() == old(self).file_size(),
            final(self).remaining() == 0,
            final(self).cursor() == 0,
    {
        proof {
            use_type_invariant(&*self);
        }
        self.remaining = 0;
        self.cursor = 0;
    }

    /// Moves the cursor by `offset`, as `seek` does relative to the cursor.
    pub fn seek_relative(&mut self, offset: i64) -> (r: Result<(), SeekError>)
        ensures
            final(self).fd() == old(self).fd(),
            final(self).file_size() == old(self).file_size(),
            final(self).remaining() == 0,
            final(self).cursor() == cursor_after_seek(
                old(self).file_size(),
                old(self).cursor(),
                SeekPos::Current(offset),
            ),
            r is Err <==> old(self).cursor() + offset < 0,
    {
        match self.seek(SeekPos::Current(offset)) {
            Ok(_) => Ok(()),
            Err(e) => Err(e),
        }
    }
}

} // verus!
