//! The byte cursor: a forward/random-access big-endian reader over an
//! in-memory byte buffer, tracking an explicitly repositionable read
//! position.
//!
//! Reading past the end of the buffer fails with
//! [`FontError::UnexpectedEndOfData`]; that is the only error this module
//! raises.  Seeking or skipping past the end is not itself an error: the
//! position may legally point past the buffer, and the failure surfaces on
//! the next read attempt.

use vstd::prelude::*;
use crate::FontError;

verus! {

/// The unsigned big-endian 16-bit value stored at byte offset `p` of `data`.
pub open spec fn be16_at(data: Seq<u8>, p: int) -> int {
    data[p] * 0x100 + data[p + 1]
}

/// The unsigned big-endian 32-bit value stored at byte offset `p` of `data`.
pub open spec fn be32_at(data: Seq<u8>, p: int) -> int {
    data[p] * 0x100_0000 + data[p + 1] * 0x1_0000 + data[p + 2] * 0x100 + data[p + 3]
}

/// Reinterprets an unsigned 16-bit value as a signed (two's complement) one.
pub open spec fn i16_of(v: int) -> int {
    if v >= 0x8000 {
        v - 0x1_0000
    } else {
        v
    }
}

/// Whether bit `bit` (0 = least significant) of `flag` is set.
pub open spec fn spec_bit(flag: u8, bit: u8) -> bool {
    (flag >> bit) & 1 == 1
}

/// Whether bit `bit` (0 = least significant) of `flag` is set.
pub fn bit_is_set(flag: u8, bit: u8) -> (r: bool)
    requires
        bit < 8,
    ensures
        r == spec_bit(flag, bit),
{
    (flag >> bit) & 1 == 1
}

/// A big-endian byte cursor over an owned in-memory font buffer.
pub struct FontReader {
    data: Vec<u8>,
    pos: u64,
}

impl FontReader {
    /// The whole underlying buffer; reads never change it.
    pub closed spec fn bytes(&self) -> Seq<u8> {
        self.data@
    }

    /// The current read position, a byte offset into the buffer.  It may
    /// point past the end; a read from there fails.
    pub closed spec fn position(&self) -> u64 {
        self.pos
    }

    /// The buffer is an in-memory `Vec`, so its length fits a `usize`.
    pub proof fn buffer_in_bounds(&self)
        ensures
            self.bytes().len() <= usize::MAX,
    {
        assert(self.data.len() == self.data@.len());
    }

    /// Wraps an in-memory font buffer, with the read position at its start.
    pub fn new(data: Vec<u8>) -> (r: FontReader)
        ensures
            r.bytes() == data@,
            r.position() == 0,
    {
        FontReader { data, pos: 0 }
    }

    /// Reads one byte and advances the position by one.
    pub fn read_byte(&mut self) -> (r: Result<u8, FontError>)
        ensures
            final(self).bytes() == old(self).bytes(),
            if old(self).position() + 1 <= old(self).bytes().len() {
                &&& r matches Ok(b) && b == old(self).bytes()[old(self).position() as int]
                &&& final(self).position() == old(self).position() + 1
            } else {
                &&& r matches Err(e) && e == FontError::UnexpectedEndOfData
                &&& final(self).position() == old(self).position()
            },
    {
        if self.pos < self.data.len() as u64 {
            let b = self.data[self.pos as usize];
            self.pos = self.pos + 1;
            Ok(b)
        } else {
            Err(FontError::UnexpectedEndOfData)
        }
    }

    /// Reads an unsigned big-endian 16-bit value, advancing by two bytes.
    pub fn read_u16(&mut self) -> (r: Result<u16, FontError>)
        ensures
            final(self).bytes() == old(self).bytes(),
            if old(self).position() + 2 <= old(self).bytes().len() {
                &&& r matches Ok(v) && v == be16_at(old(self).bytes(), old(self).position() as int)
                &&& final(self).position() == old(self).position() + 2
            } else {
                &&& r matches Err(e) && e == FontError::UnexpectedEndOfData
                &&& final(self).position() == old(self).position()
            },
    {
        let len = self.data.len() as u64;
        if 2 <= len && self.pos <= len - 2 {
            let b0 = self.data[self.pos as usize];
            let b1 = self.data[(self.pos + 1) as usize];
            self.pos = self.pos + 2;
            Ok((b0 as u16) * 0x100 + (b1 as u16))
        } else {
            Err(FontError::UnexpectedEndOfData)
        }
    }

    /// Reads an unsigned big-endian 32-bit value, advancing by four bytes.
    pub fn read_u32(&mut self) -> (r: Result<u32, FontError>)
        ensures
            final(self).bytes() == old(self).bytes(),
            if old(self).position() + 4 <= old(self).bytes().len() {
                &&& r matches Ok(v) && v == be32_at(old(self).bytes(), old(self).position() as int)
                &&& final(self).position() == old(self).position() + 4
            } else {
                &&& r matches Err(e) && e == FontError::UnexpectedEndOfData
                &&& final(self).position() == old(self).position()
            },
    {
        let len = self.data.len() as u64;
        if 4 <= len && self.pos <= len - 4 {
            let b0 = self.data[self.pos as usize];
            let b1 = self.data[(self.pos + 1) as usize];
            let b2 = self.data[(self.pos + 2) as usize];
            let b3 = self.data[(self.pos + 3) as usize];
            self.pos = self.pos + 4;
            Ok((b0 as u32) * 0x100_0000 + (b1 as u32) * 0x1_0000 + (b2 as u32) * 0x100
                + (b3 as u32))
        } else {
            Err(FontError::UnexpectedEndOfData)
        }
    }

    /// Reads a signed big-endian 16-bit value, advancing by two bytes.
    pub fn read_i16(&mut self) -> (r: Result<i16, FontError>)
        ensures
            final(self).bytes() == old(self).bytes(),
            if old(self).position() + 2 <= old(self).bytes().len() {
                &&& r matches Ok(v) && v == i16_of(
                    be16_at(old(self).bytes(), old(self).position() as int),
                )
                &&& final(self).position() == old(self).position() + 2
            } else {
                &&& r matches Err(e) && e == FontError::UnexpectedEndOfData
                &&& final(self).position() == old(self).position()
            },
    {
        let v = match self.read_u16() {
            Ok(v) => v,
            Err(e) => {
                return Err(e);
            },
        };
        if v >= 0x8000 {
            Ok(((v as i32) - 0x1_0000) as i16)
        } else {
            Ok(v as i16)
        }
    }

    /// Reads a 4-byte table tag, advancing by four bytes.  The tag is
    /// returned packed big-endian (first byte most significant); the four
    /// bytes are raw and not validated as printable text.
    pub fn read_tag(&mut self) -> (r: Result<u32, FontError>)
        ensures
            final(self).bytes() == old(self).bytes(),
            if old(self).position() + 4 <= old(self).bytes().len() {
                &&& r matches Ok(v) && v == be32_at(old(self).bytes(), old(self).position() as int)
                &&& final(self).position() == old(self).position() + 4
            } else {
                &&& r matches Err(e) && e == FontError::UnexpectedEndOfData
                &&& final(self).position() == old(self).position()
            },
    {
        self.read_u32()
    }

    /// Moves the position forward by `n` bytes, saturating at the largest
    /// representable offset (which is past every buffer, so any later read
    /// from there fails).
    pub fn skip_bytes(&mut self, n: u64)
        ensures
            final(self).bytes() == old(self).bytes(),
            final(self).position() == if old(self).position() + n <= u64::MAX {
                old(self).position() + n
            } else {
                u64::MAX as int
            },
    {
        if n <= u64::MAX - self.pos {
            self.pos = self.pos + n;
        } else {
            self.pos = u64::MAX;
        }
    }

    /// Moves the position to the absolute byte offset `pos`.  Positions
    /// past the end of the buffer are legal; the next read from one fails.
    pub fn go_to(&mut self, pos: u64)
        ensures
            final(self).bytes() == old(self).bytes(),
            final(self).position() == pos,
    {
        self.pos = pos;
    }

    /// The current absolute read position.
    pub fn get_location(&self) -> (r: u64)
        ensures
            r == self.position(),
    {
        self.pos
    }
}

} // verus!
