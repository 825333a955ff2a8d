use vstd::prelude::*;

use crate::error::FontError;
use crate::reader::{be16, be32, Parser};

verus! {

/// Tag of the head table, the bytes `head` packed big-endian.
pub const HEAD_TAG: u32 = 0x68656164;

/// Tag of the cmap table, the bytes `cmap` packed big-endian.
pub const CMAP_TAG: u32 = 0x636D6170;

/// Tag of the loca table, the bytes `loca` packed big-endian.
pub const LOCA_TAG: u32 = 0x6C6F6361;

/// Tag of the glyf table, the bytes `glyf` packed big-endian.
pub const GLYF_TAG: u32 = 0x676C7966;

/// One row of the table directory: where a named table lives inside
/// the font buffer.
#[derive(Clone, Copy, Debug, PartialEq, Eq, Structural)]
pub struct TableEntry {
    pub tag: u32,
    pub checksum: u32,
    pub offset: u32,
    pub length: u32,
}

impl TableEntry {
    /// The byte range the entry claims lies inside a buffer of length
    /// `blen`.
    pub open spec fn fits(&self, blen: int) -> bool {
        self.offset + self.length <= blen
    }
}

/// The directory entry stored at byte offset `off`.
pub open spec fn entry_at(b: Seq<u8>, off: int) -> TableEntry {
    TableEntry {
        tag: be32(b, off),
        checksum: be32(b, off + 4),
        offset: be32(b, off + 8),
        length: be32(b, off + 12),
    }
}

/// All `numTables` directory entries, in file order: the 12-byte offset
/// subtable is followed by 16-byte rows.
pub open spec fn dir_entries(b: Seq<u8>) -> Seq<TableEntry>
    recommends
        b.len() >= 12,
{
    Seq::new(be16(b, 4) as nat, |i: int| entry_at(b, 12 + 16 * i))
}

/// A buffer holds a complete directory: the offset subtable is present,
/// every declared row lies inside the buffer, and every row's claimed
/// table range does too.
pub open spec fn dir_ok(b: Seq<u8>) -> bool {
    &&& b.len() >= 12
    &&& 12 + 16 * (be16(b, 4) as int) <= b.len()
    &&& forall|i: int|
        0 <= i < dir_entries(b).len() ==> (#[trigger] dir_entries(b)[i]).fits(b.len() as int)
}

/// The first directory entry carrying `tag`, scanning from index `i`.
/// Duplicate tags are resolved first-wins: a later row with the same
/// tag never shadows an earlier one.
pub open spec fn first_entry_from(s: Seq<TableEntry>, tag: u32, i: int) -> Option<TableEntry>
    decreases s.len() - i,
{
    if i < 0 || i >= s.len() {
        None
    } else if s[i].tag == tag {
        Some(s[i])
    } else {
        first_entry_from(s, tag, i + 1)
    }
}

/// The first directory entry carrying `tag`, if any.
pub open spec fn first_entry(s: Seq<TableEntry>, tag: u32) -> Option<TableEntry> {
    first_entry_from(s, tag, 0)
}

/// A found entry is one of the rows of the directory.
pub proof fn lemma_first_entry_in_seq(s: Seq<TableEntry>, tag: u32, i: int)
    requires
        0 <= i,
        first_entry_from(s, tag, i) is Some,
    ensures
        exists|j: int|
            i <= j < s.len() && s[j] == first_entry_from(s, tag, i)->Some_0 && s[j].tag == tag,
    decreases s.len() - i,
{
    if i < s.len() && s[i].tag != tag {
        lemma_first_entry_in_seq(s, tag, i + 1);
    }
}

/// The decoded offset subtable and table directory. Built once from
/// the raw bytes, immutable thereafter; tables are found afterwards by
/// explicit tag lookup.
#[derive(Debug)]
pub struct SfntDirectory {
    pub scaler_type: u32,
    pub num_tables: u16,
    pub search_range: u16,
    pub entry_selector: u16,
    pub range_shift: u16,
    pub entries: Vec<TableEntry>,
}

impl SfntDirectory {
    /// The directory is exactly what a buffer of length `blen` with
    /// contents `b` declares, and every claimed range is in bounds.
    pub open spec fn wf(&self, b: Seq<u8>) -> bool {
        &&& dir_ok(b)
        &&& self.entries@ == dir_entries(b)
        &&& self.num_tables == be16(b, 4)
        &&& self.scaler_type == be32(b, 0)
        &&& self.search_range == be16(b, 6)
        &&& self.entry_selector == be16(b, 8)
        &&& self.range_shift == be16(b, 10)
    }

    /// First-wins lookup of a table by tag.
    pub fn find_table(&self, tag: u32) -> (r: Option<TableEntry>)
        ensures
            r == first_entry(self.entries@, tag),
    {
        let ghost s = self.entries@;
        let n = self.entries.len();
        let mut i: usize = 0;
        while i < n
            invariant
                n == s.len(),
                s == self.entries@,
                0 <= i <= n,
                first_entry(s, tag) == first_entry_from(s, tag, i as int),
            decreases n - i,
        {
            let e = self.entries[i];
            if e.tag == tag {
                return Some(e);
            }
            i = i + 1;
        }
        None
    }
}

impl Parser {
    /// Decodes the offset subtable and the table directory (the sfnt
    /// container's index). Rejects with `TruncatedBuffer` a buffer too
    /// short for the subtable, a `numTables` that implies rows beyond
    /// the buffer, or a row whose claimed table range leaves the
    /// buffer.
    pub fn read_offset_tables(&self) -> (r: Result<SfntDirectory, FontError>)
        ensures
            dir_ok(self.buf@) ==> (r matches Ok(d) && d.wf(self.buf@)),
            !dir_ok(self.buf@) ==> r == Err::<SfntDirectory, FontError>(
                FontError::TruncatedBuffer,
            ),
    {
        let blen = self.buf.len();
        let scaler_type = match self.ru32(0) {
            Ok(v) => v,
            Err(e) => { return Err(e); },
        };
        let num_tables = match self.ru16(4) {
            Ok(v) => v,
            Err(e) => { return Err(e); },
        };
        let search_range = match self.ru16(6) {
            Ok(v) => v,
            Err(e) => { return Err(e); },
        };
        let entry_selector = match self.ru16(8) {
            Ok(v) => v,
            Err(e) => { return Err(e); },
        };
        let range_shift = match self.ru16(10) {
            Ok(v) => v,
            Err(e) => { return Err(e); },
        };
        let n = num_tables as usize;
        if n > (usize::MAX - 12) / 16 || 12 + 16 * n > blen {
            return Err(FontError::TruncatedBuffer);
        }
        let mut entries: Vec<TableEntry> = Vec::new();
        let mut i: usize = 0;
        while i < n
            invariant
                n == be16(self.buf@, 4) as int,
                blen == self.buf@.len(),
                12 + 16 * n <= blen,
                0 <= i <= n,
                entries@.len() == i,
                forall|j: int| 0 <= j < i ==> entries@[j] == entry_at(self.buf@, 12 + 16 * j),
                forall|j: int|
                    0 <= j < i ==> (#[trigger] entries@[j]).fits(self.buf@.len() as int),
            decreases n - i,
        {
            let row = 12 + 16 * i;
            let tag = match self.ru32(row) {
                Ok(v) => v,
                Err(e) => { return Err(e); },
            };
            let checksum = match self.ru32(row + 4) {
                Ok(v) => v,
                Err(e) => { return Err(e); },
            };
            let offset = match self.ru32(row + 8) {
                Ok(v) => v,
                Err(e) => { return Err(e); },
            };
            let length = match self.ru32(row + 12) {
                Ok(v) => v,
                Err(e) => { return Err(e); },
            };
            let e = TableEntry { tag, checksum, offset, length };
            if !(offset as usize <= blen && length as usize <= blen - offset as usize) {
                proof {
                    assert(dir_entries(self.buf@)[i as int] == e);
                }
                return Err(FontError::TruncatedBuffer);
            }
            entries.push(e);
            i = i + 1;
        }
        proof {
            assert(entries@ =~= dir_entries(self.buf@));
        }
        Ok(SfntDirectory {
            scaler_type,
            num_tables,
            search_range,
            entry_selector,
            range_shift,
            entries,
        })
    }
}

} // verus!
