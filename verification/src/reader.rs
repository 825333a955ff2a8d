use vstd::prelude::*;

use crate::error::FontError;

verus! {

/// The 16-bit big-endian value stored at byte offset `off`.
pub open spec fn be16(b: Seq<u8>, off: int) -> u16
    recommends
        0 <= off,
        off + 2 <= b.len(),
{
    (b[off] * 0x100 + b[off + 1]) as u16
}

/// The 32-bit big-endian value stored at byte offset `off`. Table tags
/// are read with this as well: a tag is four raw bytes packed into a
/// `u32`, not a text string.
pub open spec fn be32(b: Seq<u8>, off: int) -> u32
    recommends
        0 <= off,
        off + 4 <= b.len(),
{
    (b[off] * 0x100_0000 + b[off + 1] * 0x1_0000 + b[off + 2] * 0x100 + b[off + 3]) as u32
}

/// The `len` bytes starting at `off`, each widened to a `char`.
pub open spec fn chars_at(b: Seq<u8>, off: int, len: int) -> Seq<char>
    recommends
        0 <= off,
        0 <= len,
        off + len <= b.len(),
{
    Seq::new(len as nat, |i: int| b[off + i] as char)
}

/// Bounds-checked reader over an immutable font buffer. `ptr` is a
/// cursor used by the sequential reads; the `r`-prefixed reads take an
/// explicit offset and leave the cursor alone. Every read validates
/// against the buffer length and reports `TruncatedBuffer` instead of
/// panicking.
#[derive(Debug)]
pub struct Parser {
    pub ptr: usize,
    pub buf: Vec<u8>,
}

impl Parser {
    /// A reader positioned at the start of the given buffer.
    pub fn new(buf: Vec<u8>) -> (p: Parser)
        ensures
            p.buf@ == buf@,
            p.ptr == 0,
    {
        Parser { ptr: 0, buf }
    }

    /// Big-endian u16 at an explicit offset; the cursor is untouched.
    pub fn ru16(&self, ptr: usize) -> (r: Result<u16, FontError>)
        ensures
            ptr + 2 <= self.buf@.len() ==> r == Ok::<u16, FontError>(be16(self.buf@, ptr as int)),
            ptr + 2 > self.buf@.len() ==> r == Err::<u16, FontError>(FontError::TruncatedBuffer),
    {
        if ptr < self.buf.len() && self.buf.len() - ptr >= 2 {
            let hi = self.buf[ptr];
            let lo = self.buf[ptr + 1];
            Ok((hi as u16) * 0x100 + (lo as u16))
        } else {
            Err(FontError::TruncatedBuffer)
        }
    }

    /// Big-endian u32 at an explicit offset; the cursor is untouched.
    pub fn ru32(&self, ptr: usize) -> (r: Result<u32, FontError>)
        ensures
            ptr + 4 <= self.buf@.len() ==> r == Ok::<u32, FontError>(be32(self.buf@, ptr as int)),
            ptr + 4 > self.buf@.len() ==> r == Err::<u32, FontError>(FontError::TruncatedBuffer),
    {
        if ptr < self.buf.len() && self.buf.len() - ptr >= 4 {
            let b0 = self.buf[ptr];
            let b1 = self.buf[ptr + 1];
            let b2 = self.buf[ptr + 2];
            let b3 = self.buf[ptr + 3];
            Ok((b0 as u32) * 0x100_0000 + (b1 as u32) * 0x1_0000 + (b2 as u32) * 0x100
                + (b3 as u32))
        } else {
            Err(FontError::TruncatedBuffer)
        }
    }

    /// Big-endian u16 at the cursor; on success the cursor advances
    /// past the value, on failure it stays put.
    pub fn u16(&mut self) -> (r: Result<u16, FontError>)
        ensures
            final(self).buf@ == old(self).buf@,
            old(self).ptr + 2 <= old(self).buf@.len() ==> r == Ok::<u16, FontError>(
                be16(old(self).buf@, old(self).ptr as int),
            ) && final(self).ptr == old(self).ptr + 2,
            old(self).ptr + 2 > old(self).buf@.len() ==> r == Err::<u16, FontError>(
                FontError::TruncatedBuffer,
            ) && final(self).ptr == old(self).ptr,
    {
        let r = self.ru16(self.ptr);
        if r.is_ok() {
            proof {
                assert(self.buf.len() == self.buf@.len());
            }
            self.ptr = self.ptr + 2;
        }
        r
    }

    /// Big-endian u32 at the cursor; on success the cursor advances
    /// past the value, on failure it stays put.
    pub fn u32(&mut self) -> (r: Result<u32, FontError>)
        ensures
            final(self).buf@ == old(self).buf@,
            old(self).ptr + 4 <= old(self).buf@.len() ==> r == Ok::<u32, FontError>(
                be32(old(self).buf@, old(self).ptr as int),
            ) && final(self).ptr == old(self).ptr + 4,
            old(self).ptr + 4 > old(self).buf@.len() ==> r == Err::<u32, FontError>(
                FontError::TruncatedBuffer,
            ) && final(self).ptr == old(self).ptr,
    {
        let r = self.ru32(self.ptr);
        if r.is_ok() {
            proof {
                assert(self.buf.len() == self.buf@.len());
            }
            self.ptr = self.ptr + 4;
        }
        r
    }

    /// The next `len` bytes as characters (each byte widened to a
    /// `char`); on success the cursor advances past them.
    pub fn bytes_to_str(&mut self, len: usize) -> (r: Result<Vec<char>, FontError>)
        ensures
            final(self).buf@ == old(self).buf@,
            old(self).ptr + len <= old(self).buf@.len() ==> (r matches Ok(v) && v@ == chars_at(
                old(self).buf@,
                old(self).ptr as int,
                len as int,
            ) && final(self).ptr == old(self).ptr + len),
            old(self).ptr + len > old(self).buf@.len() ==> r == Err::<Vec<char>, FontError>(
                FontError::TruncatedBuffer,
            ) && final(self).ptr == old(self).ptr,
    {
        if len <= self.buf.len() && self.ptr <= self.buf.len() - len {
            let mut v: Vec<char> = Vec::new();
            let mut i: usize = 0;
            while i < len
                invariant
                    i <= len,
                    self.ptr + len <= self.buf@.len(),
                    v@.len() == i,
                    forall|j: int| 0 <= j < i ==> v@[j] == self.buf@[self.ptr + j] as char,
                decreases len - i,
            {
                proof {
                    assert(self.buf.len() == self.buf@.len());
                }
                let c = self.buf[self.ptr + i] as char;
                v.push(c);
                i = i + 1;
            }
            proof {
                assert(v@ =~= chars_at(self.buf@, self.ptr as int, len as int));
            }
            self.ptr = self.ptr + len;
            Ok(v)
        } else {
            Err(FontError::TruncatedBuffer)
        }
    }
}

} // verus!
