use vstd::prelude::*;

use crate::directory::TableEntry;
use crate::error::FontError;
use crate::reader::{be16, be32, Parser};

verus! {

/// The value the head table's magic field must hold.
pub const HEAD_MAGIC: u32 = 0x5F0F3CF5;

/// Width of a loca table entry: `Short` entries are 16-bit values
/// storing offset/2, `Long` entries are raw 32-bit byte offsets.
#[derive(Clone, Copy, Debug, PartialEq, Eq, Structural)]
pub enum LocaFormat {
    Short,
    Long,
}

/// Font-wide metadata decoded from the head table.
#[derive(Clone, Copy, Debug, PartialEq, Eq, Structural)]
pub struct HeadTable {
    pub magic_number: u32,
    pub units_per_em: u16,
    pub x_min: i16,
    pub y_min: i16,
    pub x_max: i16,
    pub y_max: i16,
    pub index_to_loc_format: LocaFormat,
}

/// A stored 16-bit field reinterpreted as signed (two's complement).
pub open spec fn i16_of(v: u16) -> i16 {
    (if v >= 0x8000 {
        v - 0x10000
    } else {
        v as int
    }) as i16
}

/// What decoding the head table at directory entry `e` yields. Checks
/// run in this order: the table must hold the 52 bytes of fixed fields
/// and lie in the buffer, its magic field must match, and its
/// indexToLocFormat must be 0 (short) or 1 (long).
pub open spec fn head_result(b: Seq<u8>, e: TableEntry) -> Result<HeadTable, FontError> {
    let off = e.offset as int;
    if e.length < 52 || !e.fits(b.len() as int) {
        Err(FontError::TruncatedBuffer)
    } else if be32(b, off + 12) != HEAD_MAGIC {
        Err(FontError::InvalidMagicNumber)
    } else if be16(b, off + 50) == 0 || be16(b, off + 50) == 1 {
        Ok(
            HeadTable {
                magic_number: be32(b, off + 12),
                units_per_em: be16(b, off + 18),
                x_min: i16_of(be16(b, off + 36)),
                y_min: i16_of(be16(b, off + 38)),
                x_max: i16_of(be16(b, off + 40)),
                y_max: i16_of(be16(b, off + 42)),
                index_to_loc_format: if be16(b, off + 50) == 0 {
                    LocaFormat::Short
                } else {
                    LocaFormat::Long
                },
            },
        )
    } else {
        Err(FontError::UnsupportedFormat)
    }
}

/// Reinterprets a stored 16-bit field as signed.
pub fn to_i16(v: u16) -> (r: i16)
    ensures
        r == i16_of(v),
{
    if v < 0x8000 {
        v as i16
    } else {
        ((v as i32) - 0x10000) as i16
    }
}

impl Parser {
    /// Decodes the head table found at directory entry `entry`,
    /// validating the magic number and the loca index format.
    pub fn read_head_table(&self, entry: TableEntry) -> (r: Result<HeadTable, FontError>)
        ensures
            r == head_result(self.buf@, entry),
    {
        let blen = self.buf.len();
        if entry.length < 52 || !(entry.offset as usize <= blen && entry.length as usize <= blen
            - entry.offset as usize) {
            return Err(FontError::TruncatedBuffer);
        }
        let off = entry.offset as usize;
        let magic_number = match self.ru32(off + 12) {
            Ok(v) => v,
            Err(e) => { return Err(e); },
        };
        if magic_number != HEAD_MAGIC {
            return Err(FontError::InvalidMagicNumber);
        }
        let units_per_em = match self.ru16(off + 18) {
            Ok(v) => v,
            Err(e) => { return Err(e); },
        };
        let x_min = match self.ru16(off + 36) {
            Ok(v) => v,
            Err(e) => { return Err(e); },
        };
        let y_min = match self.ru16(off + 38) {
            Ok(v) => v,
            Err(e) => { return Err(e); },
        };
        let x_max = match self.ru16(off + 40) {
            Ok(v) => v,
            Err(e) => { return Err(e); },
        };
        let y_max = match self.ru16(off + 42) {
            Ok(v) => v,
            Err(e) => { return Err(e); },
        };
        let iloc = match self.ru16(off + 50) {
            Ok(v) => v,
            Err(e) => { return Err(e); },
        };
        if iloc == 0 || iloc == 1 {
            Ok(HeadTable {
                magic_number,
                units_per_em,
                x_min: to_i16(x_min),
                y_min: to_i16(y_min),
                x_max: to_i16(x_max),
                y_max: to_i16(y_max),
                index_to_loc_format: if iloc == 0 {
                    LocaFormat::Short
                } else {
                    LocaFormat::Long
                },
            })
        } else {
            Err(FontError::UnsupportedFormat)
        }
    }
}

} // verus!
