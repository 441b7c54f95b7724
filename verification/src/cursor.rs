//! A sequential, seekable reader over an in-memory byte buffer: fixed-width
//! little-endian integer reads, fixed-length permissive text reads, and
//! relative seeking. Every read consumes exactly the requested bytes or fails
//! with `UnexpectedEndOfData`, leaving the cursor unchanged.

use vstd::prelude::*;
use crate::bytes::{u32_le, i32_le, lossy_of, utf8_lossy};
use crate::error::DemoError;

verus! {

/// A byte buffer with a current offset. The offset may point past the end of
/// the buffer (a seek is not validated against the buffer length); any read
/// from such a position fails.
#[derive(Debug)]
pub struct Cursor {
    pub data: Vec<u8>,
    pub pos: usize,
}

impl Cursor {
    /// A cursor positioned at the start of `data`.
    pub fn new(data: Vec<u8>) -> (c: Cursor)
        ensures
            c.data@ == data@,
            c.pos == 0,
    {
        Cursor { data, pos: 0 }
    }

    /// Consumes one byte, returned as an 8-bit unsigned tag.
    pub fn read_u8(&mut self) -> (r: Result<u8, DemoError>)
        ensures
            final(self).data@ == old(self).data@,
            old(self).pos + 1 <= old(self).data@.len() ==> {
                &&& r == Ok::<u8, DemoError>(old(self).data@[old(self).pos as int])
                &&& final(self).pos == old(self).pos + 1
            },
            old(self).pos + 1 > old(self).data@.len() ==> {
                &&& r == Err::<u8, DemoError>(DemoError::UnexpectedEndOfData)
                &&& *final(self) == *old(self)
            },
    {
        if self.pos < self.data.len() {
            let b = self.data[self.pos];
            self.pos = self.pos + 1;
            Ok(b)
        } else {
            Err(DemoError::UnexpectedEndOfData)
        }
    }

    /// Consumes 4 bytes, interpreted as a little-endian unsigned integer.
    pub fn read_u32(&mut self) -> (r: Result<u32, DemoError>)
        ensures
            final(self).data@ == old(self).data@,
            old(self).pos + 4 <= old(self).data@.len() ==> {
                &&& r matches Ok(v) && v as int == u32_le(old(self).data@, old(self).pos as int)
                &&& final(self).pos == old(self).pos + 4
            },
            old(self).pos + 4 > old(self).data@.len() ==> {
                &&& r == Err::<u32, DemoError>(DemoError::UnexpectedEndOfData)
                &&& *final(self) == *old(self)
            },
    {
        if self.pos > self.data.len() || self.data.len() - self.pos < 4 {
            return Err(DemoError::UnexpectedEndOfData);
        }
        let b0 = self.data[self.pos];
        let b1 = self.data[self.pos + 1];
        let b2 = self.data[self.pos + 2];
        let b3 = self.data[self.pos + 3];
        self.pos = self.pos + 4;
        Ok(b0 as u32 + (b1 as u32) * 0x100 + (b2 as u32) * 0x1_0000 + (b3 as u32) * 0x100_0000)
    }

    /// Consumes 4 bytes, interpreted as a little-endian two's-complement
    /// signed integer.
    pub fn read_i32(&mut self) -> (r: Result<i32, DemoError>)
        ensures
            final(self).data@ == old(self).data@,
            old(self).pos + 4 <= old(self).data@.len() ==> {
                &&& r matches Ok(v) && v as int == i32_le(old(self).data@, old(self).pos as int)
                &&& final(self).pos == old(self).pos + 4
            },
            old(self).pos + 4 > old(self).data@.len() ==> {
                &&& r == Err::<i32, DemoError>(DemoError::UnexpectedEndOfData)
                &&& *final(self) == *old(self)
            },
    {
        let u = match self.read_u32() {
            Ok(u) => u,
            Err(e) => {
                return Err(e);
            },
        };
        if u < 0x8000_0000 {
            Ok(u as i32)
        } else {
            let d: u32 = 0xFFFF_FFFFu32 - u;
            Ok(-(d as i32) - 1)
        }
    }

    /// Consumes exactly `n` bytes, returned verbatim.
    pub fn read_exact(&mut self, n: usize) -> (r: Result<Vec<u8>, DemoError>)
        ensures
            final(self).data@ == old(self).data@,
            old(self).pos + n <= old(self).data@.len() ==> {
                &&& r matches Ok(v) && v@ == old(self).data@.subrange(
                    old(self).pos as int,
                    old(self).pos + n,
                )
                &&& final(self).pos == old(self).pos + n
            },
            old(self).pos + n > old(self).data@.len() ==> {
                &&& r == Err::<Vec<u8>, DemoError>(DemoError::UnexpectedEndOfData)
                &&& *final(self) == *old(self)
            },
    {
        if self.pos > self.data.len() || self.data.len() - self.pos < n {
            return Err(DemoError::UnexpectedEndOfData);
        }
        let ghost d0 = self.data@;
        let ghost p0 = self.pos as int;
        let mut buf: Vec<u8> = Vec::new();
        let mut i: usize = 0;
        while i < n
            invariant
                i <= n,
                self.data@ == d0,
                self.pos == p0,
                p0 + n <= d0.len(),
                d0.len() <= usize::MAX,
                buf@ =~= d0.subrange(p0, p0 + i),
            decreases n - i,
        {
            buf.push(self.data[self.pos + i]);
            i = i + 1;
        }
        self.pos = self.pos + n;
        proof {
            assert(buf@ =~= d0.subrange(p0, p0 + n));
        }
        Ok(buf)
    }

    /// Consumes exactly `n` bytes, decoded as permissive (lossy) text.
    pub fn read_string(&mut self, n: usize) -> (r: Result<String, DemoError>)
        ensures
            final(self).data@ == old(self).data@,
            old(self).pos + n <= old(self).data@.len() ==> {
                &&& r matches Ok(s) && s@ == lossy_of(old(self).data@.subrange(
                    old(self).pos as int,
                    old(self).pos + n,
                ))
                &&& final(self).pos == old(self).pos + n
            },
            old(self).pos + n > old(self).data@.len() ==> {
                &&& r == Err::<String, DemoError>(DemoError::UnexpectedEndOfData)
                &&& *final(self) == *old(self)
            },
    {
        let buf = match self.read_exact(n) {
            Ok(b) => b,
            Err(e) => {
                return Err(e);
            },
        };
        Ok(utf8_lossy(&buf))
    }

    /// Moves the offset by `delta` bytes. The move is not validated against
    /// the buffer length, only against the representable offset range.
    pub fn seek_relative(&mut self, delta: i64) -> (r: Result<(), DemoError>)
        ensures
            final(self).data@ == old(self).data@,
            0 <= old(self).pos + delta <= usize::MAX ==> {
                &&& r == Ok::<(), DemoError>(())
                &&& final(self).pos == old(self).pos + delta
            },
            !(0 <= old(self).pos + delta <= usize::MAX) ==> {
                &&& r == Err::<(), DemoError>(DemoError::InvalidSeek)
                &&& *final(self) == *old(self)
            },
    {
        if delta >= 0 {
            let d: u64 = delta as u64;
            if d as u128 > usize::MAX as u128 - self.pos as u128 {
                Err(DemoError::InvalidSeek)
            } else {
                self.pos = self.pos + d as usize;
                Ok(())
            }
        } else {
            // |delta| without overflowing the negation at i64::MIN
            let m: u64 = (-(delta + 1)) as u64 + 1;
            if m > self.pos as u64 {
                Err(DemoError::InvalidSeek)
            } else {
                self.pos = self.pos - m as usize;
                Ok(())
            }
        }
    }
}

} // verus!
