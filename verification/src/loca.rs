use vstd::prelude::*;

use crate::directory::TableEntry;
use crate::error::FontError;
use crate::head::LocaFormat;
use crate::reader::{be16, be32, Parser};

verus! {

/// The byte range of one glyph's outline data, relative to the start
/// of the glyf table. Equal bounds denote an intentionally empty
/// outline, such as the space glyph.
#[derive(Clone, Copy, Debug, PartialEq, Eq, Structural)]
pub struct GlyphRange {
    pub glyph_id: u16,
    pub start_offset: u32,
    pub end_offset: u32,
}

/// Byte width of one loca entry in the given format.
pub open spec fn loca_entry_width(fmt: LocaFormat) -> int {
    match fmt {
        LocaFormat::Short => 2,
        LocaFormat::Long => 4,
    }
}

/// The glyf byte offset stored in loca entry `idx`: a short entry
/// holds offset/2 and is doubled back, a long entry holds the raw
/// 32-bit offset.
pub open spec fn loca_value(b: Seq<u8>, loca: TableEntry, fmt: LocaFormat, idx: int) -> int {
    match fmt {
        LocaFormat::Short => 2 * be16(b, loca.offset + 2 * idx),
        LocaFormat::Long => be32(b, loca.offset + 4 * idx) as int,
    }
}

/// Number of glyphs the loca table addresses: one fewer than its
/// entry count, since each glyph needs the next entry as its end.
pub open spec fn loca_glyph_count(loca: TableEntry, fmt: LocaFormat) -> int {
    loca.length as int / loca_entry_width(fmt) - 1
}

/// What resolving glyph `gid` against the loca table yields: the two
/// consecutive loca entries at `gid` and `gid + 1`, or
/// `GlyphIdOutOfRange` when entry `gid + 1` is past the table.
pub open spec fn range_result(b: Seq<u8>, loca: TableEntry, fmt: LocaFormat, gid: u16) -> Result<
    GlyphRange,
    FontError,
> {
    if gid + 1 > loca_glyph_count(loca, fmt) {
        Err(FontError::GlyphIdOutOfRange)
    } else {
        Ok(
            (GlyphRange {
                glyph_id: gid,
                start_offset: loca_value(b, loca, fmt, gid as int) as u32,
                end_offset: loca_value(b, loca, fmt, gid as int + 1) as u32,
            }),
        )
    }
}

impl Parser {
    /// Resolves glyph `gid` to its byte range in the glyf table by
    /// reading the two consecutive loca entries at `gid` and
    /// `gid + 1`. The returned offsets are relative to the glyf table
    /// start; decoding the outline curves behind them is the
    /// caller's business, so the glyf entry itself is not consulted.
    pub fn get_glyph_offset(
        &self,
        loca: TableEntry,
        fmt: LocaFormat,
        gid: u16,
    ) -> (r: Result<GlyphRange, FontError>)
        requires
            loca.fits(self.buf@.len() as int),
        ensures
            r == range_result(self.buf@, loca, fmt, gid),
    {
        let width: usize = match fmt {
            LocaFormat::Short => 2,
            LocaFormat::Long => 4,
        };
        proof {
            assert(self.buf.len() == self.buf@.len());
        }
        let entries = loca.length as usize / width;
        if entries == 0 || gid as usize + 1 > entries - 1 {
            return Err(FontError::GlyphIdOutOfRange);
        }
        let off = loca.offset as usize;
        match fmt {
            LocaFormat::Short => {
                let s = match self.ru16(off + 2 * (gid as usize)) {
                    Ok(v) => v,
                    Err(e) => { return Err(e); },
                };
                let e = match self.ru16(off + 2 * (gid as usize) + 2) {
                    Ok(v) => v,
                    Err(e) => { return Err(e); },
                };
                Ok(GlyphRange {
                    glyph_id: gid,
                    start_offset: 2 * (s as u32),
                    end_offset: 2 * (e as u32),
                })
            },
            LocaFormat::Long => {
                let s = match self.ru32(off + 4 * (gid as usize)) {
                    Ok(v) => v,
                    Err(e) => { return Err(e); },
                };
                let e = match self.ru32(off + 4 * (gid as usize) + 4) {
                    Ok(v) => v,
                    Err(e) => { return Err(e); },
                };
                Ok(GlyphRange { glyph_id: gid, start_offset: s, end_offset: e })
            },
        }
    }
}

/// Consecutive glyph ranges tile the glyf table: within one loca
/// table, the range of glyph `gid + 1` starts exactly where the range
/// of glyph `gid` ends.
pub proof fn lemma_ranges_contiguous(
    b: Seq<u8>,
    loca: TableEntry,
    fmt: LocaFormat,
    gid: u16,
    next: u16,
)
    requires
        next == gid + 1,
        range_result(b, loca, fmt, gid) is Ok,
        range_result(b, loca, fmt, next) is Ok,
    ensures
        range_result(b, loca, fmt, next)->Ok_0.start_offset == range_result(
            b,
            loca,
            fmt,
            gid,
        )->Ok_0.end_offset,
{
}

} // verus!
