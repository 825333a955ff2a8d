use vstd::prelude::*;

use crate::cmap::{cmap_result, selected_record, CMapSubtableRecord, CMapTable};
use crate::directory::{
    dir_entries, dir_ok, first_entry, lemma_first_entry_in_seq, SfntDirectory, TableEntry,
    CMAP_TAG, GLYF_TAG, HEAD_TAG, LOCA_TAG,
};
use crate::error::FontError;
use crate::format4::{f4_result, Format4Model, Format4Table};
use crate::glyph::glyph_id_spec;
use crate::head::{head_result, HeadTable};
use crate::loca::{range_result, GlyphRange};
use crate::reader::{be16, Parser};

verus! {

/// Mathematical content of a fully decoded font: everything later
/// lookups may depend on, as a function of the raw bytes alone.
pub struct FontModel {
    pub entries: Seq<TableEntry>,
    pub head: Option<HeadTable>,
    pub cmap_version: u16,
    pub cmap_records: Seq<CMapSubtableRecord>,
    pub f4: Format4Model,
}

/// What loading a font buffer yields: the first structural error
/// encountered, or the complete decoded model. The stages run in
/// order — table directory, head table (when present; its absence
/// only matters once outline resolution is requested), cmap header,
/// then the format 4 subtable selected by platform preference.
pub open spec fn font_result(b: Seq<u8>) -> Result<FontModel, FontError> {
    if !dir_ok(b) {
        Err(FontError::TruncatedBuffer)
    } else {
        let entries = dir_entries(b);
        let head_step: Result<Option<HeadTable>, FontError> = match first_entry(
            entries,
            HEAD_TAG,
        ) {
            None => Ok(None),
            Some(he) => match head_result(b, he) {
                Ok(h) => Ok(Some(h)),
                Err(e) => Err(e),
            },
        };
        match head_step {
            Err(e) => Err(e),
            Ok(head) => match first_entry(entries, CMAP_TAG) {
                None => Err(FontError::MissingRequiredTable(CMAP_TAG)),
                Some(ce) => match cmap_result(b, ce) {
                    Err(e) => Err(e),
                    Ok(records) => {
                        let sel = selected_record(records);
                        match f4_result(b, ce.offset + sel.offset) {
                            Err(e) => Err(e),
                            Ok(f4) => Ok(
                                (FontModel {
                                    entries,
                                    head,
                                    cmap_version: be16(b, ce.offset as int),
                                    cmap_records: records,
                                    f4,
                                }),
                            ),
                        }
                    },
                },
            },
        }
    }
}

/// What resolving a glyph's outline byte range yields: the head, loca
/// and glyf tables are all required here, and the head table's index
/// format decides the loca entry width.
pub open spec fn outline_result(b: Seq<u8>, m: FontModel, gid: u16) -> Result<GlyphRange,
    FontError> {
    match m.head {
        None => Err(FontError::MissingRequiredTable(HEAD_TAG)),
        Some(h) => match first_entry(m.entries, LOCA_TAG) {
            None => Err(FontError::MissingRequiredTable(LOCA_TAG)),
            Some(loca) => match first_entry(m.entries, GLYF_TAG) {
                None => Err(FontError::MissingRequiredTable(GLYF_TAG)),
                Some(glyf) => range_result(b, loca, h.index_to_loc_format, gid),
            },
        },
    }
}

/// A decoded font: the owned byte buffer plus the read-only snapshot
/// structures computed from it once, at load time.
#[derive(Debug)]
pub struct DecodedFont {
    pub parser: Parser,
    pub directory: SfntDirectory,
    pub head: Option<HeadTable>,
    pub cmap: CMapTable,
    pub format4: Format4Table,
}

impl DecodedFont {
    /// The mathematical content of this decoded font.
    pub open spec fn model(&self) -> FontModel {
        FontModel {
            entries: self.directory.entries@,
            head: self.head,
            cmap_version: self.cmap.version,
            cmap_records: self.cmap.subtables@,
            f4: self.format4@,
        }
    }

    /// The decoded structures are exactly what loading the owned
    /// bytes yields.
    pub open spec fn wf(&self) -> bool {
        &&& self.directory.wf(self.parser.buf@)
        &&& self.format4.wf()
        &&& font_result(self.parser.buf@) == Ok::<FontModel, FontError>(self.model())
    }
}

/// Decodes a font buffer: table directory, head table, cmap header,
/// and the format 4 subtable selected by platform preference. The
/// first structural error aborts the load; no partial font is
/// returned.
pub fn load_font(bytes: Vec<u8>) -> (r: Result<DecodedFont, FontError>)
    ensures
        r matches Ok(f) ==> font_result(bytes@) == Ok::<FontModel, FontError>(f.model())
            && f.wf() && f.parser.buf@ == bytes@,
        r matches Err(e) ==> font_result(bytes@) == Err::<FontModel, FontError>(e),
{
    let parser = Parser::new(bytes);
    let directory = match parser.read_offset_tables() {
        Ok(d) => d,
        Err(e) => { return Err(e); },
    };
    let head = match directory.find_table(HEAD_TAG) {
        None => None,
        Some(he) => match parser.read_head_table(he) {
            Ok(h) => Some(h),
            Err(e) => { return Err(e); },
        },
    };
    let ce = match directory.find_table(CMAP_TAG) {
        Some(ce) => ce,
        None => { return Err(FontError::MissingRequiredTable(CMAP_TAG)); },
    };
    let cmap = match parser.read_cmap(ce) {
        Ok(c) => c,
        Err(e) => { return Err(e); },
    };
    let sel = cmap.select_subtable();
    let abs64: u64 = ce.offset as u64 + sel.offset as u64;
    if abs64 + 2 > parser.buf.len() as u64 {
        return Err(FontError::TruncatedBuffer);
    }
    let abs = abs64 as usize;
    let format4 = match parser.read_format4(abs) {
        Ok(t) => t,
        Err(e) => { return Err(e); },
    };
    Ok(DecodedFont { parser, directory, head, cmap, format4 })
}

/// Maps a Unicode code point (restricted to the basic plane,
/// `<= 0xFFFF`) to a glyph id. Never fails: 0 is the standard
/// missing-glyph sentinel, not an error.
pub fn glyph_id_for(font: &DecodedFont, codepoint: u32) -> (g: u16)
    requires
        font.wf(),
        codepoint <= 0xFFFF,
    ensures
        g == glyph_id_spec(font.model().f4, codepoint as u16),
{
    font.format4.resolve_glyph(codepoint as u16)
}

/// Resolves a glyph id to the byte range of its outline data in the
/// glyf table, reading the loca entries at `glyph_id` and
/// `glyph_id + 1`.
pub fn glyph_outline_range(font: &DecodedFont, glyph_id: u16) -> (r: Result<GlyphRange,
    FontError>)
    requires
        font.wf(),
    ensures
        r == outline_result(font.parser.buf@, font.model(), glyph_id),
{
    let h = match font.head {
        Some(h) => h,
        None => { return Err(FontError::MissingRequiredTable(HEAD_TAG)); },
    };
    let loca = match font.directory.find_table(LOCA_TAG) {
        Some(l) => l,
        None => { return Err(FontError::MissingRequiredTable(LOCA_TAG)); },
    };
    if font.directory.find_table(GLYF_TAG).is_none() {
        return Err(FontError::MissingRequiredTable(GLYF_TAG));
    }
    proof {
        lemma_first_entry_in_seq(font.directory.entries@, LOCA_TAG, 0);
        let j = choose|j: int|
            0 <= j < font.directory.entries@.len() && font.directory.entries@[j] == loca
                && font.directory.entries@[j].tag == LOCA_TAG;
        assert(dir_entries(font.parser.buf@)[j].fits(font.parser.buf@.len() as int));
    }
    font.parser.get_glyph_offset(loca, h.index_to_loc_format, glyph_id)
}

/// Loading identical bytes yields decoded structures that agree on
/// every lookup: the glyph id of every code point and the outline
/// range of every glyph id coincide.
pub proof fn lemma_load_font_deterministic(
    f1: DecodedFont,
    f2: DecodedFont,
    b: Seq<u8>,
    cp: u16,
    gid: u16,
)
    requires
        f1.wf(),
        f2.wf(),
        f1.parser.buf@ == b,
        f2.parser.buf@ == b,
    ensures
        glyph_id_spec(f1.model().f4, cp) == glyph_id_spec(f2.model().f4, cp),
        outline_result(b, f1.model(), gid) == outline_result(b, f2.model(), gid),
{
    assert(f1.model() == f2.model());
}

} // verus!
