use vstd::prelude::*;

use crate::directory::{TableEntry, CMAP_TAG};
use crate::error::FontError;
use crate::reader::{be16, be32, Parser};

verus! {

/// One platform/encoding record of the cmap header. `offset` is
/// relative to the start of the cmap table.
#[derive(Clone, Copy, Debug, PartialEq, Eq, Structural)]
pub struct CMapSubtableRecord {
    pub platform_id: u16,
    pub platform_specific_id: u16,
    pub offset: u32,
}

/// The decoded cmap header: version word and the ordered subtable
/// records.
#[derive(Debug)]
pub struct CMapTable {
    pub version: u16,
    pub subtables: Vec<CMapSubtableRecord>,
}

/// The subtable record stored at byte offset `off`.
pub open spec fn record_at(b: Seq<u8>, off: int) -> CMapSubtableRecord {
    CMapSubtableRecord {
        platform_id: be16(b, off),
        platform_specific_id: be16(b, off + 2),
        offset: be32(b, off + 4),
    }
}

/// All subtable records the cmap header at entry `e` declares: the
/// 4-byte header is followed by 8-byte records.
pub open spec fn cmap_records(b: Seq<u8>, e: TableEntry) -> Seq<CMapSubtableRecord> {
    Seq::new(be16(b, e.offset + 2) as nat, |i: int| record_at(b, e.offset + 4 + 8 * i))
}

/// What decoding the cmap header at directory entry `e` yields: the
/// header and every record it declares must fit in the table's range,
/// and an empty record list means the font offers no character
/// mapping at all.
pub open spec fn cmap_result(b: Seq<u8>, e: TableEntry) -> Result<Seq<CMapSubtableRecord>,
    FontError> {
    if e.length < 4 || !e.fits(b.len() as int) || 4 + 8 * (be16(b, e.offset + 2) as int)
        > e.length {
        Err(FontError::TruncatedBuffer)
    } else if be16(b, e.offset + 2) == 0 {
        Err(FontError::MissingRequiredTable(CMAP_TAG))
    } else {
        Ok(cmap_records(b, e))
    }
}

/// Index of the first Windows Unicode BMP record (platform 3,
/// encoding 1), scanning from `i`; the sequence length when none.
pub open spec fn first_windows_unicode(s: Seq<CMapSubtableRecord>, i: int) -> int
    decreases s.len() - i,
{
    if i < 0 || i >= s.len() {
        s.len() as int
    } else if s[i].platform_id == 3 && s[i].platform_specific_id == 1 {
        i
    } else {
        first_windows_unicode(s, i + 1)
    }
}

/// Index of the first Unicode-platform record (platform 0, any
/// encoding), scanning from `i`; the sequence length when none.
pub open spec fn first_unicode(s: Seq<CMapSubtableRecord>, i: int) -> int
    decreases s.len() - i,
{
    if i < 0 || i >= s.len() {
        s.len() as int
    } else if s[i].platform_id == 0 {
        i
    } else {
        first_unicode(s, i + 1)
    }
}

/// The record the glyph lookup will use: prefer Windows Unicode BMP
/// (3, 1), else the Unicode platform (0, any), else the first record.
pub open spec fn selected_record(s: Seq<CMapSubtableRecord>) -> CMapSubtableRecord
    recommends
        s.len() > 0,
{
    if first_windows_unicode(s, 0) < s.len() {
        s[first_windows_unicode(s, 0)]
    } else if first_unicode(s, 0) < s.len() {
        s[first_unicode(s, 0)]
    } else {
        s[0]
    }
}

impl CMapTable {
    /// Picks the active subtable record by platform preference.
    pub fn select_subtable(&self) -> (r: CMapSubtableRecord)
        requires
            self.subtables@.len() > 0,
        ensures
            r == selected_record(self.subtables@),
    {
        let ghost s = self.subtables@;
        let n = self.subtables.len();
        let mut i: usize = 0;
        while i < n
            invariant
                n == s.len(),
                s == self.subtables@,
                0 <= i <= n,
                first_windows_unicode(s, 0) == first_windows_unicode(s, i as int),
            decreases n - i,
        {
            let rec = self.subtables[i];
            if rec.platform_id == 3 && rec.platform_specific_id == 1 {
                return rec;
            }
            i = i + 1;
        }
        let mut i: usize = 0;
        while i < n
            invariant
                n == s.len(),
                s == self.subtables@,
                0 <= i <= n,
                first_windows_unicode(s, 0) == s.len(),
                first_unicode(s, 0) == first_unicode(s, i as int),
            decreases n - i,
        {
            let rec = self.subtables[i];
            if rec.platform_id == 0 {
                return rec;
            }
            i = i + 1;
        }
        self.subtables[0]
    }
}

impl Parser {
    /// Decodes the cmap header at directory entry `entry` into its
    /// version and subtable records.
    pub fn read_cmap(&self, entry: TableEntry) -> (r: Result<CMapTable, FontError>)
        ensures
            r matches Ok(t) ==> cmap_result(self.buf@, entry) matches Ok(s) && t.subtables@ == s
                && t.version == be16(self.buf@, entry.offset as int) && t.subtables@.len() > 0,
            r matches Err(e) ==> cmap_result(self.buf@, entry) == Err::<Seq<CMapSubtableRecord>,
                FontError,
            >(e),
    {
        let blen = self.buf.len();
        if entry.length < 4 || !(entry.offset as usize <= blen && entry.length as usize <= blen
            - entry.offset as usize) {
            return Err(FontError::TruncatedBuffer);
        }
        let off = entry.offset as usize;
        let version = match self.ru16(off) {
            Ok(v) => v,
            Err(e) => { return Err(e); },
        };
        let count = match self.ru16(off + 2) {
            Ok(v) => v,
            Err(e) => { return Err(e); },
        };
        let n = count as usize;
        if n > (usize::MAX - 4) / 8 || 4 + 8 * n > entry.length as usize {
            return Err(FontError::TruncatedBuffer);
        }
        if n == 0 {
            return Err(FontError::MissingRequiredTable(CMAP_TAG));
        }
        let mut subtables: Vec<CMapSubtableRecord> = Vec::new();
        let mut i: usize = 0;
        while i < n
            invariant
                n == be16(self.buf@, entry.offset + 2) as int,
                blen == self.buf@.len(),
                entry.offset + entry.length <= blen,
                4 + 8 * n <= entry.length,
                off == entry.offset,
                0 <= i <= n,
                subtables@.len() == i,
                forall|j: int|
                    0 <= j < i ==> subtables@[j] == record_at(self.buf@, entry.offset + 4 + 8 * j),
            decreases n - i,
        {
            let row = off + 4 + 8 * i;
            let platform_id = match self.ru16(row) {
                Ok(v) => v,
                Err(e) => { return Err(e); },
            };
            let platform_specific_id = match self.ru16(row + 2) {
                Ok(v) => v,
                Err(e) => { return Err(e); },
            };
            let rec_offset = match self.ru32(row + 4) {
                Ok(v) => v,
                Err(e) => { return Err(e); },
            };
            subtables.push(CMapSubtableRecord { platform_id, platform_specific_id, offset: rec_offset });
            i = i + 1;
        }
        proof {
            assert(subtables@ =~= cmap_records(self.buf@, entry));
        }
        Ok(CMapTable { version, subtables })
    }
}

} // verus!
