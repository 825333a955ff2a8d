use vstd::prelude::*;

use crate::format4::{model_wf, Format4Model, Format4Table};

verus! {

/// Index of the first element at or beyond `cp`, scanning from `i`;
/// the sequence length when every element is below `cp`.
pub open spec fn first_ge(s: Seq<u16>, cp: u16, i: int) -> int
    decreases s.len() - i,
{
    if i < 0 || i >= s.len() {
        s.len() as int
    } else if s[i] >= cp {
        i
    } else {
        first_ge(s, cp, i + 1)
    }
}

/// `first_ge` finds an element at or beyond `cp` with nothing below
/// `cp` before it, and misses only when there is nothing to find.
pub proof fn lemma_first_ge_props(s: Seq<u16>, cp: u16, i: int)
    requires
        0 <= i <= s.len(),
    ensures
        i <= first_ge(s, cp, i) <= s.len(),
        first_ge(s, cp, i) < s.len() ==> s[first_ge(s, cp, i)] >= cp,
        forall|j: int| i <= j < first_ge(s, cp, i) ==> s[j] < cp,
        forall|k: int| i <= k < s.len() && s[k] >= cp ==> first_ge(s, cp, i) <= k,
    decreases s.len() - i,
{
    if i < s.len() && s[i] < cp {
        lemma_first_ge_props(s, cp, i + 1);
    }
}

/// The glyph id the format 4 mapping assigns to code point `cp`.
/// The lookup segment is the first whose `endCode` is at or beyond
/// `cp`; a code point before that segment's `startCode` falls in a
/// gap and maps to the missing-glyph sentinel 0. A segment with
/// `idRangeOffset` 0 maps through `idDelta` alone, modulo 65536.
/// Otherwise `idRangeOffset[i]` is a byte offset relative to that
/// entry's own storage address: the candidate glyph id lives at
/// `addressOf(idRangeOffset[i]) + idRangeOffset[i]
/// + 2 * (cp - startCode[i])`, which in 16-bit units of the
/// `glyphIdArray` is `i + idRangeOffset[i] / 2 + (cp - startCode[i])
/// - segCount`. An address outside the array, or a misaligned (odd)
/// offset, or a stored 0 all mean "explicitly unmapped" and yield the
/// sentinel; any other stored value is adjusted by `idDelta`, modulo
/// 65536.
pub open spec fn glyph_id_spec(m: Format4Model, cp: u16) -> u16 {
    let i = first_ge(m.end_code, cp, 0);
    if i >= m.end_code.len() {
        0
    } else if m.start_code[i] > cp {
        0
    } else if m.id_range_offset[i] == 0 {
        ((m.id_delta[i] + cp) % 0x10000) as u16
    } else if m.id_range_offset[i] % 2 != 0 {
        0
    } else {
        let gi = i + m.id_range_offset[i] / 2 + cp - m.start_code[i] - m.seg_count;
        if gi < 0 || gi >= m.glyph_ids.len() {
            0
        } else if m.glyph_ids[gi] == 0 {
            0
        } else {
            ((m.glyph_ids[gi] + m.id_delta[i]) % 0x10000) as u16
        }
    }
}

impl Format4Table {
    /// Maps a code point to its glyph id; never fails, since 0 is the
    /// standard missing-glyph sentinel. Binary-searches `endCode`
    /// (validated non-decreasing at decode time, with the 0xFFFF
    /// sentinel guaranteeing a structural match) for the lookup
    /// segment.
    pub fn resolve_glyph(&self, cp: u16) -> (g: u16)
        requires
            self.wf(),
        ensures
            g == glyph_id_spec(self@, cp),
    {
        let sc = self.seg_count as usize;
        let mut lo: usize = 0;
        let mut hi: usize = sc - 1;
        while lo != hi
            invariant
                self.wf(),
                sc == self@.seg_count,
                lo <= hi < sc,
                self.end_code@[hi as int] >= cp,
                forall|j: int| 0 <= j < lo ==> self.end_code@[j] < cp,
            decreases hi - lo,
        {
            let mid = lo + (hi - lo) / 2;
            if self.end_code[mid] < cp {
                lo = mid + 1;
            } else {
                hi = mid;
            }
        }
        proof {
            lemma_first_ge_props(self.end_code@, cp, 0);
        }
        let i = lo;
        let start = self.start_code[i];
        if start > cp {
            return 0;
        }
        let delta = self.id_delta[i];
        let iro = self.id_range_offset[i];
        if iro == 0 {
            return (((delta as u32) + (cp as u32)) % 0x10000) as u16;
        }
        if iro % 2 != 0 {
            return 0;
        }
        let idx_part = i + (iro as usize) / 2 + (cp as usize - start as usize);
        if idx_part < sc {
            return 0;
        }
        let gi = idx_part - sc;
        if gi >= self.glyph_id_array.len() {
            return 0;
        }
        let raw = self.glyph_id_array[gi];
        if raw == 0 {
            return 0;
        }
        (((raw as u32) + (delta as u32)) % 0x10000) as u16
    }
}

/// A code point covered by no segment maps to the missing-glyph
/// sentinel: outside every `[startCode[i], endCode[i]]` range the
/// lookup returns 0.
pub proof fn lemma_unmapped_outside_segments(m: Format4Model, cp: u16)
    requires
        model_wf(m),
        forall|i: int|
            0 <= i < m.seg_count ==> !(#[trigger] m.start_code[i] <= cp <= m.end_code[i]),
    ensures
        glyph_id_spec(m, cp) == 0,
{
    lemma_first_ge_props(m.end_code, cp, 0);
    let i = first_ge(m.end_code, cp, 0);
    assert(m.end_code[m.seg_count - 1] >= cp);
    assert(i < m.end_code.len());
    assert(!(m.start_code[i] <= cp <= m.end_code[i]));
}

/// Inside the lookup segment — the first whose `endCode` is at or
/// beyond `cp` — a zero `idRangeOffset` maps the code point through
/// `idDelta` alone: the glyph id is `(idDelta[i] + cp) mod 65536`.
pub proof fn lemma_delta_segment(m: Format4Model, cp: u16, i: int)
    requires
        model_wf(m),
        0 <= i < m.seg_count,
        m.start_code[i] <= cp <= m.end_code[i],
        forall|j: int| 0 <= j < i ==> m.end_code[j] < cp,
        m.id_range_offset[i] == 0,
    ensures
        glyph_id_spec(m, cp) == ((m.id_delta[i] + cp) % 0x10000) as u16,
{
    lemma_first_ge_props(m.end_code, cp, 0);
    assert(first_ge(m.end_code, cp, 0) == i);
}

} // verus!
