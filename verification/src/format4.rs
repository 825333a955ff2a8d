use vstd::prelude::*;

use crate::error::FontError;
use crate::reader::{be16, Parser};

verus! {

/// The `n` consecutive 16-bit big-endian values stored from byte
/// offset `off`: every stride is 2 bytes per element.
pub open spec fn u16s_at(b: Seq<u8>, off: int, n: int) -> Seq<u16>
    recommends
        0 <= off,
        0 <= n,
        off + 2 * n <= b.len(),
{
    Seq::new(n as nat, |i: int| be16(b, off + 2 * i))
}

/// Non-decreasing, stated pairwise so that lookups may compare
/// elements arbitrarily far apart.
pub open spec fn is_sorted(s: Seq<u16>) -> bool {
    forall|i: int, j: int| 0 <= i <= j < s.len() ==> s[i] <= s[j]
}

/// Mathematical content of a decoded format 4 subtable: the header
/// words and the five value arrays.
pub struct Format4Model {
    pub format: u16,
    pub length: u16,
    pub language: u16,
    pub seg_count: int,
    pub search_range: u16,
    pub entry_selector: u16,
    pub range_shift: u16,
    pub end_code: Seq<u16>,
    pub start_code: Seq<u16>,
    pub id_delta: Seq<u16>,
    pub id_range_offset: Seq<u16>,
    pub glyph_ids: Seq<u16>,
}

/// The segment invariants every valid decoded subtable satisfies: the
/// four parallel arrays share length `seg_count`, `end_code` is
/// non-decreasing and closed by the 0xFFFF sentinel segment, and no
/// segment starts after it ends.
pub open spec fn model_wf(m: Format4Model) -> bool {
    &&& m.seg_count >= 1
    &&& m.end_code.len() == m.seg_count
    &&& m.start_code.len() == m.seg_count
    &&& m.id_delta.len() == m.seg_count
    &&& m.id_range_offset.len() == m.seg_count
    &&& is_sorted(m.end_code)
    &&& m.end_code[m.seg_count - 1] == 0xFFFF
    &&& forall|i: int| 0 <= i < m.seg_count ==> m.start_code[i] <= m.end_code[i]
}

/// What decoding a format 4 subtable at absolute byte offset `abs`
/// yields. The layout, relative to `abs`: seven 16-bit header words,
/// then `endCode`, a 2-byte reserved pad, `startCode`, `idDelta` and
/// `idRangeOffset` (each `segCountX2 / 2` 16-bit values), then
/// `glyphIdArray` filling the remaining bytes up to `length`. Each
/// array's base is the byte offset of the previous array's end.
/// Failures, in the order the checks run: a header outside the buffer
/// is `TruncatedBuffer`; a format word other than 4 is
/// `UnsupportedCMapFormat`; a zero or odd `segCountX2`, a declared
/// `length` leaving the buffer, arrays overrunning `length`, an
/// unsorted `endCode`, a missing 0xFFFF sentinel, or a segment with
/// `startCode > endCode` are all `MalformedSegmentTable`.
pub open spec fn f4_result(b: Seq<u8>, abs: int) -> Result<Format4Model, FontError> {
    if !(0 <= abs && abs + 2 <= b.len()) {
        Err(FontError::TruncatedBuffer)
    } else if be16(b, abs) != 4 {
        Err(FontError::UnsupportedCMapFormat(be16(b, abs)))
    } else if abs + 14 > b.len() {
        Err(FontError::TruncatedBuffer)
    } else {
        let length = be16(b, abs + 2) as int;
        let seg_x2 = be16(b, abs + 6) as int;
        let sc = seg_x2 / 2;
        if seg_x2 == 0 || seg_x2 % 2 != 0 {
            Err(FontError::MalformedSegmentTable)
        } else if abs + length > b.len() {
            Err(FontError::MalformedSegmentTable)
        } else if 16 + 8 * sc > length {
            Err(FontError::MalformedSegmentTable)
        } else {
            let end_code = u16s_at(b, abs + 14, sc);
            let start_code = u16s_at(b, abs + 16 + 2 * sc, sc);
            let m = Format4Model {
                format: be16(b, abs),
                length: be16(b, abs + 2),
                language: be16(b, abs + 4),
                seg_count: sc,
                search_range: be16(b, abs + 8),
                entry_selector: be16(b, abs + 10),
                range_shift: be16(b, abs + 12),
                end_code: end_code,
                start_code: start_code,
                id_delta: u16s_at(b, abs + 16 + 4 * sc, sc),
                id_range_offset: u16s_at(b, abs + 16 + 6 * sc, sc),
                glyph_ids: u16s_at(b, abs + 16 + 8 * sc, (length - 16 - 8 * sc) / 2),
            };
            if !is_sorted(end_code) {
                Err(FontError::MalformedSegmentTable)
            } else if end_code[sc - 1] != 0xFFFF {
                Err(FontError::MalformedSegmentTable)
            } else if !(forall|i: int| 0 <= i < sc ==> start_code[i] <= end_code[i]) {
                Err(FontError::MalformedSegmentTable)
            } else {
                Ok(m)
            }
        }
    }
}

/// The decoded format 4 segment mapping, built once by the decoder and
/// immutable thereafter.
#[derive(Debug)]
pub struct Format4Table {
    pub format: u16,
    pub length: u16,
    pub language: u16,
    pub seg_count: u16,
    pub search_range: u16,
    pub entry_selector: u16,
    pub range_shift: u16,
    pub end_code: Vec<u16>,
    pub start_code: Vec<u16>,
    pub id_delta: Vec<u16>,
    pub id_range_offset: Vec<u16>,
    pub glyph_id_array: Vec<u16>,
}

impl View for Format4Table {
    type V = Format4Model;

    open spec fn view(&self) -> Format4Model {
        Format4Model {
            format: self.format,
            length: self.length,
            language: self.language,
            seg_count: self.seg_count as int,
            search_range: self.search_range,
            entry_selector: self.entry_selector,
            range_shift: self.range_shift,
            end_code: self.end_code@,
            start_code: self.start_code@,
            id_delta: self.id_delta@,
            id_range_offset: self.id_range_offset@,
            glyph_ids: self.glyph_id_array@,
        }
    }
}

impl Format4Table {
    /// The decoded table satisfies the segment invariants.
    pub open spec fn wf(&self) -> bool {
        model_wf(self@)
    }
}

/// In a sequence whose adjacent elements are ordered, any two
/// elements are.
proof fn lemma_adjacent_le(s: Seq<u16>, i: int, j: int)
    requires
        forall|k: int| 0 < k < s.len() ==> #[trigger] s[k - 1] <= s[k],
        0 <= i <= j < s.len(),
    ensures
        s[i] <= s[j],
    decreases j - i,
{
    if i < j {
        lemma_adjacent_le(s, i, j - 1);
    }
}

impl Parser {
    /// The `n` consecutive big-endian u16 values starting at byte
    /// offset `off`.
    pub fn read_u16_array(&self, off: usize, n: usize) -> (r: Result<Vec<u16>, FontError>)
        ensures
            off + 2 * n <= self.buf@.len() ==> (r matches Ok(v) && v@ == u16s_at(
                self.buf@,
                off as int,
                n as int,
            )),
            off + 2 * n > self.buf@.len() ==> r == Err::<Vec<u16>, FontError>(
                FontError::TruncatedBuffer,
            ),
    {
        let blen = self.buf.len();
        if !(off <= blen && n <= (blen - off) / 2) {
            return Err(FontError::TruncatedBuffer);
        }
        let mut v: Vec<u16> = Vec::new();
        let mut i: usize = 0;
        while i < n
            invariant
                blen == self.buf@.len(),
                off + 2 * n <= blen,
                0 <= i <= n,
                v@.len() == i,
                forall|j: int| 0 <= j < i ==> v@[j] == be16(self.buf@, off + 2 * j),
            decreases n - i,
        {
            let w = match self.ru16(off + 2 * i) {
                Ok(w) => w,
                Err(e) => { return Err(e); },
            };
            v.push(w);
            i = i + 1;
        }
        proof {
            assert(v@ =~= u16s_at(self.buf@, off as int, n as int));
        }
        Ok(v)
    }

    /// Decodes the format 4 segment mapping subtable at absolute byte
    /// offset `abs`, validating the layout against the declared table
    /// length and the segment ordering invariants once, so that every
    /// later lookup may rely on them.
    pub fn read_format4(&self, abs: usize) -> (r: Result<Format4Table, FontError>)
        ensures
            r matches Ok(t) ==> f4_result(self.buf@, abs as int) matches Ok(m) && t@ == m
                && t.wf(),
            r matches Err(e) ==> f4_result(self.buf@, abs as int) == Err::<Format4Model,
                FontError,
            >(e),
    {
        let blen = self.buf.len();
        let format = match self.ru16(abs) {
            Ok(v) => v,
            Err(e) => { return Err(e); },
        };
        if format != 4 {
            return Err(FontError::UnsupportedCMapFormat(format));
        }
        if !(abs <= blen && blen - abs >= 14) {
            return Err(FontError::TruncatedBuffer);
        }
        let length = match self.ru16(abs + 2) {
            Ok(v) => v,
            Err(e) => { return Err(e); },
        };
        let language = match self.ru16(abs + 4) {
            Ok(v) => v,
            Err(e) => { return Err(e); },
        };
        let seg_x2 = match self.ru16(abs + 6) {
            Ok(v) => v,
            Err(e) => { return Err(e); },
        };
        let search_range = match self.ru16(abs + 8) {
            Ok(v) => v,
            Err(e) => { return Err(e); },
        };
        let entry_selector = match self.ru16(abs + 10) {
            Ok(v) => v,
            Err(e) => { return Err(e); },
        };
        let range_shift = match self.ru16(abs + 12) {
            Ok(v) => v,
            Err(e) => { return Err(e); },
        };
        if seg_x2 == 0 || seg_x2 % 2 != 0 {
            return Err(FontError::MalformedSegmentTable);
        }
        let sc = (seg_x2 / 2) as usize;
        if !(length as usize <= blen - abs) {
            return Err(FontError::MalformedSegmentTable);
        }
        if 16 + 8 * sc > length as usize {
            return Err(FontError::MalformedSegmentTable);
        }
        let end_code = match self.read_u16_array(abs + 14, sc) {
            Ok(v) => v,
            Err(e) => { return Err(e); },
        };
        let start_code = match self.read_u16_array(abs + 16 + 2 * sc, sc) {
            Ok(v) => v,
            Err(e) => { return Err(e); },
        };
        let id_delta = match self.read_u16_array(abs + 16 + 4 * sc, sc) {
            Ok(v) => v,
            Err(e) => { return Err(e); },
        };
        let id_range_offset = match self.read_u16_array(abs + 16 + 6 * sc, sc) {
            Ok(v) => v,
            Err(e) => { return Err(e); },
        };
        let glyph_count = (length as usize - 16 - 8 * sc) / 2;
        let glyph_id_array = match self.read_u16_array(abs + 16 + 8 * sc, glyph_count) {
            Ok(v) => v,
            Err(e) => { return Err(e); },
        };
        if !check_sorted(&end_code) {
            return Err(FontError::MalformedSegmentTable);
        }
        if end_code[sc - 1] != 0xFFFF {
            return Err(FontError::MalformedSegmentTable);
        }
        if !check_starts_within(&start_code, &end_code) {
            return Err(FontError::MalformedSegmentTable);
        }
        let t = Format4Table {
            format,
            length,
            language,
            seg_count: seg_x2 / 2,
            search_range,
            entry_selector,
            range_shift,
            end_code,
            start_code,
            id_delta,
            id_range_offset,
            glyph_id_array,
        };
        Ok(t)
    }
}

/// Whether the sequence is non-decreasing.
pub fn check_sorted(v: &Vec<u16>) -> (r: bool)
    ensures
        r == is_sorted(v@),
{
    let n = v.len();
    let mut i: usize = 1;
    while i < n
        invariant
            n == v@.len(),
            1 <= i || n == 0,
            i <= n || n == 0,
            forall|k: int| 0 < k < i ==> #[trigger] v@[k - 1] <= v@[k],
        decreases n - i,
    {
        if v[i - 1] > v[i] {
            proof {
                assert(!is_sorted(v@));
            }
            return false;
        }
        i = i + 1;
    }
    proof {
        assert forall|a: int, b: int| 0 <= a <= b < v@.len() implies v@[a] <= v@[b] by {
            lemma_adjacent_le(v@, a, b);
        }
    }
    true
}

/// Whether every segment starts no later than it ends.
pub fn check_starts_within(starts: &Vec<u16>, ends: &Vec<u16>) -> (r: bool)
    requires
        starts@.len() == ends@.len(),
    ensures
        r == (forall|i: int| 0 <= i < starts@.len() ==> starts@[i] <= ends@[i]),
{
    let n = starts.len();
    let mut i: usize = 0;
    while i < n
        invariant
            n == starts@.len(),
            starts@.len() == ends@.len(),
            0 <= i <= n,
            forall|k: int| 0 <= k < i ==> starts@[k] <= ends@[k],
        decreases n - i,
    {
        if starts[i] > ends[i] {
            return false;
        }
        i = i + 1;
    }
    true
}

} // verus!
