use ttf::directory::{CMAP_TAG, GLYF_TAG, HEAD_TAG, LOCA_TAG};
use ttf::error::FontError;
use ttf::font::{glyph_id_for, glyph_outline_range, load_font};

fn push_u16(v: &mut Vec<u8>, x: u16) {
    v.push((x >> 8) as u8);
    v.push((x & 0xFF) as u8);
}

fn push_u32(v: &mut Vec<u8>, x: u32) {
    v.push((x >> 24) as u8);
    v.push((x >> 16) as u8);
    v.push((x >> 8) as u8);
    v.push(x as u8);
}

/// Format 4 subtable bytes; each segment is (start, end, idDelta,
/// idRangeOffset).
fn format4_bytes(format_word: u16, segs: &[(u16, u16, u16, u16)], glyphs: &[u16]) -> Vec<u8> {
    let sc = segs.len() as u16;
    let length = 16 + 8 * sc + 2 * glyphs.len() as u16;
    let mut v = Vec::new();
    push_u16(&mut v, format_word);
    push_u16(&mut v, length);
    push_u16(&mut v, 0); // language
    push_u16(&mut v, sc * 2);
    push_u16(&mut v, 0); // searchRange (not validated)
    push_u16(&mut v, 0); // entrySelector
    push_u16(&mut v, 0); // rangeShift
    for s in segs {
        push_u16(&mut v, s.1); // endCode
    }
    push_u16(&mut v, 0); // reserved pad
    for s in segs {
        push_u16(&mut v, s.0); // startCode
    }
    for s in segs {
        push_u16(&mut v, s.2); // idDelta
    }
    for s in segs {
        push_u16(&mut v, s.3); // idRangeOffset
    }
    for g in glyphs {
        push_u16(&mut v, *g);
    }
    v
}

fn head_bytes(magic: u32, iloc: u16) -> Vec<u8> {
    let mut v = Vec::new();
    push_u32(&mut v, 0x00010000); // version
    push_u32(&mut v, 0x00010000); // fontRevision
    push_u32(&mut v, 0); // checkSumAdjustment
    push_u32(&mut v, magic);
    push_u16(&mut v, 0); // flags
    push_u16(&mut v, 1000); // unitsPerEm
    for _ in 0..16 {
        v.push(0); // created + modified
    }
    push_u16(&mut v, 10); // xMin
    push_u16(&mut v, 20); // yMin
    push_u16(&mut v, 500); // xMax
    push_u16(&mut v, 700); // yMax
    push_u16(&mut v, 0); // macStyle
    push_u16(&mut v, 8); // lowestRecPPEM
    push_u16(&mut v, 2); // fontDirectionHint
    push_u16(&mut v, iloc);
    push_u16(&mut v, 0); // glyphDataFormat
    v
}

fn cmap_bytes(records: &[(u16, u16, u32)], subtable: &[u8]) -> Vec<u8> {
    let mut v = Vec::new();
    push_u16(&mut v, 0); // version
    push_u16(&mut v, records.len() as u16);
    for r in records {
        push_u16(&mut v, r.0);
        push_u16(&mut v, r.1);
        push_u32(&mut v, r.2);
    }
    v.extend_from_slice(subtable);
    v
}

fn loca_short_bytes(entries: &[u16]) -> Vec<u8> {
    let mut v = Vec::new();
    for e in entries {
        push_u16(&mut v, *e);
    }
    v
}

fn loca_long_bytes(entries: &[u32]) -> Vec<u8> {
    let mut v = Vec::new();
    for e in entries {
        push_u32(&mut v, *e);
    }
    v
}

fn build_font(tables: &[(u32, Vec<u8>)]) -> Vec<u8> {
    let mut v = Vec::new();
    push_u32(&mut v, 0x00010000); // scaler type
    push_u16(&mut v, tables.len() as u16);
    push_u16(&mut v, 0); // searchRange
    push_u16(&mut v, 0); // entrySelector
    push_u16(&mut v, 0); // rangeShift
    let mut off = 12 + 16 * tables.len();
    let mut body: Vec<u8> = Vec::new();
    for (tag, data) in tables {
        push_u32(&mut v, *tag);
        push_u32(&mut v, 0); // checksum (not validated)
        push_u32(&mut v, off as u32);
        push_u32(&mut v, data.len() as u32);
        body.extend_from_slice(data);
        off += data.len();
    }
    v.extend_from_slice(&body);
    v
}

/// One basic-latin segment covering 'A'..='Z' plus the sentinel, a
/// short-format loca with entries [0, 0, 10, 10], and 20 bytes of
/// glyf data.
fn standard_font() -> Vec<u8> {
    let f4 = format4_bytes(4, &[(65, 90, 0, 0), (0xFFFF, 0xFFFF, 1, 0)], &[]);
    let cmap = cmap_bytes(&[(3, 1, 12)], &f4);
    build_font(&[
        (HEAD_TAG, head_bytes(0x5F0F3CF5, 0)),
        (CMAP_TAG, cmap),
        (LOCA_TAG, loca_short_bytes(&[0, 0, 10, 10])),
        (GLYF_TAG, vec![0u8; 20]),
    ])
}

#[test]
fn scenario_basic_latin_segment() {
    let font = load_font(standard_font()).unwrap();
    assert_eq!(glyph_id_for(&font, 65), 65); // 'A'
    assert_eq!(glyph_id_for(&font, 90), 90); // 'Z'
    assert_eq!(glyph_id_for(&font, 97), 0); // 'a' falls in the gap
    assert_eq!(glyph_id_for(&font, 0), 0); // below the first segment
}

#[test]
fn scenario_truncated_directory() {
    let mut bytes = standard_font();
    // Claim more tables than the bytes can hold.
    bytes[4] = 0xFF;
    bytes[5] = 0xFF;
    assert_eq!(load_font(bytes).unwrap_err(), FontError::TruncatedBuffer);
}

#[test]
fn scenario_zero_magic() {
    let f4 = format4_bytes(4, &[(65, 90, 0, 0), (0xFFFF, 0xFFFF, 1, 0)], &[]);
    let cmap = cmap_bytes(&[(3, 1, 12)], &f4);
    let bytes = build_font(&[(HEAD_TAG, head_bytes(0, 0)), (CMAP_TAG, cmap)]);
    assert_eq!(load_font(bytes).unwrap_err(), FontError::InvalidMagicNumber);
}

#[test]
fn scenario_short_loca_ranges() {
    let font = load_font(standard_font()).unwrap();
    // Entries [0, 0, 10, 10] are stored halved: true offsets 0, 0, 20, 20.
    let g0 = glyph_outline_range(&font, 0).unwrap();
    assert_eq!((g0.start_offset, g0.end_offset), (0, 0)); // empty outline
    let g1 = glyph_outline_range(&font, 1).unwrap();
    assert_eq!((g1.start_offset, g1.end_offset), (0, 20));
    let g2 = glyph_outline_range(&font, 2).unwrap();
    assert_eq!((g2.start_offset, g2.end_offset), (20, 20));
    assert_eq!(
        glyph_outline_range(&font, 3).unwrap_err(),
        FontError::GlyphIdOutOfRange
    );
}

#[test]
fn ranges_are_contiguous() {
    let font = load_font(standard_font()).unwrap();
    for gid in 0..2u16 {
        let a = glyph_outline_range(&font, gid).unwrap();
        let b = glyph_outline_range(&font, gid + 1).unwrap();
        assert_eq!(b.start_offset, a.end_offset);
    }
}

#[test]
fn long_loca_ranges() {
    let f4 = format4_bytes(4, &[(65, 90, 0, 0), (0xFFFF, 0xFFFF, 1, 0)], &[]);
    let cmap = cmap_bytes(&[(3, 1, 12)], &f4);
    let bytes = build_font(&[
        (HEAD_TAG, head_bytes(0x5F0F3CF5, 1)),
        (CMAP_TAG, cmap),
        (LOCA_TAG, loca_long_bytes(&[0, 100, 250])),
        (GLYF_TAG, vec![0u8; 250]),
    ]);
    let font = load_font(bytes).unwrap();
    let g0 = glyph_outline_range(&font, 0).unwrap();
    assert_eq!((g0.start_offset, g0.end_offset), (0, 100));
    let g1 = glyph_outline_range(&font, 1).unwrap();
    assert_eq!((g1.start_offset, g1.end_offset), (100, 250));
    assert_eq!(
        glyph_outline_range(&font, 2).unwrap_err(),
        FontError::GlyphIdOutOfRange
    );
}

#[test]
fn load_is_idempotent() {
    let bytes = standard_font();
    let f1 = load_font(bytes.clone()).unwrap();
    let f2 = load_font(bytes).unwrap();
    for cp in 0..=0xFFFFu32 {
        assert_eq!(glyph_id_for(&f1, cp), glyph_id_for(&f2, cp));
    }
    for gid in 0..4u16 {
        assert_eq!(glyph_outline_range(&f1, gid), glyph_outline_range(&f2, gid));
    }
}

#[test]
fn unsorted_end_code_is_malformed() {
    let f4 = format4_bytes(4, &[(65, 90, 0, 0), (30, 40, 0, 0), (0xFFFF, 0xFFFF, 1, 0)], &[]);
    let cmap = cmap_bytes(&[(3, 1, 12)], &f4);
    let bytes = build_font(&[(HEAD_TAG, head_bytes(0x5F0F3CF5, 0)), (CMAP_TAG, cmap)]);
    assert_eq!(load_font(bytes).unwrap_err(), FontError::MalformedSegmentTable);
}

#[test]
fn missing_sentinel_is_malformed() {
    let f4 = format4_bytes(4, &[(65, 90, 0, 0), (100, 200, 0, 0)], &[]);
    let cmap = cmap_bytes(&[(3, 1, 12)], &f4);
    let bytes = build_font(&[(HEAD_TAG, head_bytes(0x5F0F3CF5, 0)), (CMAP_TAG, cmap)]);
    assert_eq!(load_font(bytes).unwrap_err(), FontError::MalformedSegmentTable);
}

#[test]
fn start_beyond_end_is_malformed() {
    let f4 = format4_bytes(4, &[(90, 65, 0, 0), (0xFFFF, 0xFFFF, 1, 0)], &[]);
    let cmap = cmap_bytes(&[(3, 1, 12)], &f4);
    let bytes = build_font(&[(HEAD_TAG, head_bytes(0x5F0F3CF5, 0)), (CMAP_TAG, cmap)]);
    assert_eq!(load_font(bytes).unwrap_err(), FontError::MalformedSegmentTable);
}

#[test]
fn zero_segment_count_is_malformed() {
    let f4 = format4_bytes(4, &[], &[]);
    let cmap = cmap_bytes(&[(3, 1, 12)], &f4);
    let bytes = build_font(&[(HEAD_TAG, head_bytes(0x5F0F3CF5, 0)), (CMAP_TAG, cmap)]);
    assert_eq!(load_font(bytes).unwrap_err(), FontError::MalformedSegmentTable);
}

#[test]
fn declared_length_beyond_buffer_is_malformed() {
    let mut f4 = format4_bytes(4, &[(65, 90, 0, 0), (0xFFFF, 0xFFFF, 1, 0)], &[]);
    // Overwrite the declared subtable length with one past the buffer.
    f4[2] = 0xFF;
    f4[3] = 0xFF;
    let cmap = cmap_bytes(&[(3, 1, 12)], &f4);
    let bytes = build_font(&[(HEAD_TAG, head_bytes(0x5F0F3CF5, 0)), (CMAP_TAG, cmap)]);
    assert_eq!(load_font(bytes).unwrap_err(), FontError::MalformedSegmentTable);
}

#[test]
fn missing_cmap_table() {
    let bytes = build_font(&[(HEAD_TAG, head_bytes(0x5F0F3CF5, 0))]);
    assert_eq!(
        load_font(bytes).unwrap_err(),
        FontError::MissingRequiredTable(CMAP_TAG)
    );
}

#[test]
fn empty_subtable_list_is_missing_cmap() {
    let cmap = cmap_bytes(&[], &[]);
    let bytes = build_font(&[(HEAD_TAG, head_bytes(0x5F0F3CF5, 0)), (CMAP_TAG, cmap)]);
    assert_eq!(
        load_font(bytes).unwrap_err(),
        FontError::MissingRequiredTable(CMAP_TAG)
    );
}

#[test]
fn unsupported_cmap_format() {
    let f4 = format4_bytes(6, &[(65, 90, 0, 0), (0xFFFF, 0xFFFF, 1, 0)], &[]);
    let cmap = cmap_bytes(&[(3, 1, 12)], &f4);
    let bytes = build_font(&[(HEAD_TAG, head_bytes(0x5F0F3CF5, 0)), (CMAP_TAG, cmap)]);
    assert_eq!(
        load_font(bytes).unwrap_err(),
        FontError::UnsupportedCMapFormat(6)
    );
}

#[test]
fn unsupported_loca_format() {
    let f4 = format4_bytes(4, &[(65, 90, 0, 0), (0xFFFF, 0xFFFF, 1, 0)], &[]);
    let cmap = cmap_bytes(&[(3, 1, 12)], &f4);
    let bytes = build_font(&[(HEAD_TAG, head_bytes(0x5F0F3CF5, 2)), (CMAP_TAG, cmap)]);
    assert_eq!(load_font(bytes).unwrap_err(), FontError::UnsupportedFormat);
}

#[test]
fn outline_without_head_loca_glyf() {
    let f4 = format4_bytes(4, &[(65, 90, 0, 0), (0xFFFF, 0xFFFF, 1, 0)], &[]);
    let cmap = cmap_bytes(&[(3, 1, 12)], &f4);

    // No head table: lookups still work, outline resolution reports it.
    let font = load_font(build_font(&[(CMAP_TAG, cmap.clone())])).unwrap();
    assert_eq!(glyph_id_for(&font, 65), 65);
    assert_eq!(
        glyph_outline_range(&font, 0).unwrap_err(),
        FontError::MissingRequiredTable(HEAD_TAG)
    );

    // Head present, loca absent.
    let font = load_font(build_font(&[
        (HEAD_TAG, head_bytes(0x5F0F3CF5, 0)),
        (CMAP_TAG, cmap.clone()),
    ]))
    .unwrap();
    assert_eq!(
        glyph_outline_range(&font, 0).unwrap_err(),
        FontError::MissingRequiredTable(LOCA_TAG)
    );

    // Head and loca present, glyf absent.
    let font = load_font(build_font(&[
        (HEAD_TAG, head_bytes(0x5F0F3CF5, 0)),
        (CMAP_TAG, cmap),
        (LOCA_TAG, loca_short_bytes(&[0, 0])),
    ]))
    .unwrap();
    assert_eq!(
        glyph_outline_range(&font, 0).unwrap_err(),
        FontError::MissingRequiredTable(GLYF_TAG)
    );
}

#[test]
fn id_range_offset_indexes_glyph_array() {
    // Segment 'A'..='B' maps through the glyph id array: idRangeOffset 4
    // points from its own storage slot to the array's first element.
    let f4 = format4_bytes(
        4,
        &[(65, 66, 0, 4), (0xFFFF, 0xFFFF, 1, 0)],
        &[100, 0],
    );
    let cmap = cmap_bytes(&[(3, 1, 12)], &f4);
    let bytes = build_font(&[(HEAD_TAG, head_bytes(0x5F0F3CF5, 0)), (CMAP_TAG, cmap)]);
    let font = load_font(bytes).unwrap();
    assert_eq!(glyph_id_for(&font, 65), 100);
    assert_eq!(glyph_id_for(&font, 66), 0); // stored 0: explicitly unmapped
    assert_eq!(glyph_id_for(&font, 67), 0); // past the segment
}

#[test]
fn id_range_offset_with_delta_wraps_modulo() {
    // Stored glyph id 0xFFF0 plus idDelta 0x0020 wraps modulo 65536.
    let f4 = format4_bytes(
        4,
        &[(65, 65, 0x0020, 4), (0xFFFF, 0xFFFF, 1, 0)],
        &[0xFFF0],
    );
    let cmap = cmap_bytes(&[(3, 1, 12)], &f4);
    let bytes = build_font(&[(HEAD_TAG, head_bytes(0x5F0F3CF5, 0)), (CMAP_TAG, cmap)]);
    let font = load_font(bytes).unwrap();
    assert_eq!(glyph_id_for(&font, 65), 0x0010);
}

#[test]
fn id_delta_wraps_modulo() {
    // idDelta acts modulo 65536: 0xFFFF is -1, mapping 'A' (65) to 64.
    let f4 = format4_bytes(4, &[(65, 90, 0xFFFF, 0), (0xFFFF, 0xFFFF, 1, 0)], &[]);
    let cmap = cmap_bytes(&[(3, 1, 12)], &f4);
    let bytes = build_font(&[(HEAD_TAG, head_bytes(0x5F0F3CF5, 0)), (CMAP_TAG, cmap)]);
    let font = load_font(bytes).unwrap();
    assert_eq!(glyph_id_for(&font, 65), 64);
}

#[test]
fn subtable_selection_prefers_windows_unicode() {
    // Three records; the (3, 1) one wins even when listed last. Its
    // subtable maps 'A' to 65, the decoys would map it to 66 or fail.
    let win = format4_bytes(4, &[(65, 90, 0, 0), (0xFFFF, 0xFFFF, 1, 0)], &[]);
    let uni = format4_bytes(4, &[(65, 90, 1, 0), (0xFFFF, 0xFFFF, 1, 0)], &[]);
    let sub_base = 4 + 3 * 8;
    let cmap = {
        let mut v = Vec::new();
        push_u16(&mut v, 0);
        push_u16(&mut v, 3);
        let recs = [
            (1u16, 0u16, (sub_base + win.len()) as u32),
            (0u16, 3u16, (sub_base + win.len()) as u32),
            (3u16, 1u16, sub_base as u32),
        ];
        for r in recs.iter() {
            push_u16(&mut v, r.0);
            push_u16(&mut v, r.1);
            push_u32(&mut v, r.2);
        }
        v.extend_from_slice(&win);
        v.extend_from_slice(&uni);
        v
    };
    let bytes = build_font(&[(HEAD_TAG, head_bytes(0x5F0F3CF5, 0)), (CMAP_TAG, cmap)]);
    let font = load_font(bytes).unwrap();
    assert_eq!(glyph_id_for(&font, 65), 65);
}

#[test]
fn subtable_selection_falls_back_to_unicode_platform() {
    // No (3, 1) record: the first platform-0 record wins over the
    // Macintosh record listed before it.
    let mac = format4_bytes(4, &[(65, 90, 5, 0), (0xFFFF, 0xFFFF, 1, 0)], &[]);
    let uni = format4_bytes(4, &[(65, 90, 1, 0), (0xFFFF, 0xFFFF, 1, 0)], &[]);
    let sub_base = 4 + 2 * 8;
    let cmap = {
        let mut v = Vec::new();
        push_u16(&mut v, 0);
        push_u16(&mut v, 2);
        let recs = [
            (1u16, 0u16, sub_base as u32),
            (0u16, 3u16, (sub_base + mac.len()) as u32),
        ];
        for r in recs.iter() {
            push_u16(&mut v, r.0);
            push_u16(&mut v, r.1);
            push_u32(&mut v, r.2);
        }
        v.extend_from_slice(&mac);
        v.extend_from_slice(&uni);
        v
    };
    let bytes = build_font(&[(HEAD_TAG, head_bytes(0x5F0F3CF5, 0)), (CMAP_TAG, cmap)]);
    let font = load_font(bytes).unwrap();
    assert_eq!(glyph_id_for(&font, 65), 66); // idDelta 1 applied
}

#[test]
fn duplicate_table_tags_first_wins() {
    // Two cmap entries; the first points at a working subtable, the
    // second at garbage. First-wins lookup must use the first.
    let f4 = format4_bytes(4, &[(65, 90, 0, 0), (0xFFFF, 0xFFFF, 1, 0)], &[]);
    let good = cmap_bytes(&[(3, 1, 12)], &f4);
    let garbage = vec![0xAAu8; 16];
    let bytes = build_font(&[
        (HEAD_TAG, head_bytes(0x5F0F3CF5, 0)),
        (CMAP_TAG, good),
        (CMAP_TAG, garbage),
    ]);
    let font = load_font(bytes).unwrap();
    assert_eq!(glyph_id_for(&font, 65), 65);
}

#[test]
fn empty_buffer_is_truncated() {
    assert_eq!(load_font(Vec::new()).unwrap_err(), FontError::TruncatedBuffer);
}

#[test]
fn table_entry_past_buffer_is_truncated() {
    // A directory whose single entry claims bytes beyond the buffer.
    let mut v = Vec::new();
    push_u32(&mut v, 0x00010000);
    push_u16(&mut v, 1);
    push_u16(&mut v, 0);
    push_u16(&mut v, 0);
    push_u16(&mut v, 0);
    push_u32(&mut v, HEAD_TAG);
    push_u32(&mut v, 0);
    push_u32(&mut v, 28);
    push_u32(&mut v, 1000);
    assert_eq!(load_font(v).unwrap_err(), FontError::TruncatedBuffer);
}

#[test]
fn scenario_single_table_font() {
    // Only the cmap table: one mapping segment covering 'A'..='Z' plus
    // the closing sentinel segment.
    let f4 = format4_bytes(4, &[(65, 90, 0, 0), (0xFFFF, 0xFFFF, 1, 0)], &[]);
    let cmap = cmap_bytes(&[(3, 1, 12)], &f4);
    let font = load_font(build_font(&[(CMAP_TAG, cmap)])).unwrap();
    assert_eq!(glyph_id_for(&font, 65), 65); // 'A'
    assert_eq!(glyph_id_for(&font, 97), 0); // 'a'
}

#[test]
fn odd_id_range_offset_is_unmapped() {
    // A misaligned (odd) idRangeOffset cannot address a 16-bit glyph
    // id; the code point resolves to the sentinel.
    let f4 = format4_bytes(4, &[(65, 66, 0, 5), (0xFFFF, 0xFFFF, 1, 0)], &[100, 7]);
    let cmap = cmap_bytes(&[(3, 1, 12)], &f4);
    let bytes = build_font(&[(HEAD_TAG, head_bytes(0x5F0F3CF5, 0)), (CMAP_TAG, cmap)]);
    let font = load_font(bytes).unwrap();
    assert_eq!(glyph_id_for(&font, 65), 0);
}

#[test]
fn id_range_offset_past_array_is_unmapped() {
    // idRangeOffset addressing beyond the glyph id array resolves to
    // the sentinel instead of reading out of bounds.
    let f4 = format4_bytes(4, &[(65, 80, 0, 200), (0xFFFF, 0xFFFF, 1, 0)], &[100]);
    let cmap = cmap_bytes(&[(3, 1, 12)], &f4);
    let bytes = build_font(&[(HEAD_TAG, head_bytes(0x5F0F3CF5, 0)), (CMAP_TAG, cmap)]);
    let font = load_font(bytes).unwrap();
    assert_eq!(glyph_id_for(&font, 65), 0);
    // An offset pointing backwards, before the array, likewise.
    let f4 = format4_bytes(4, &[(65, 80, 0, 2), (0xFFFF, 0xFFFF, 1, 0)], &[100]);
    let cmap = cmap_bytes(&[(3, 1, 12)], &f4);
    let bytes = build_font(&[(HEAD_TAG, head_bytes(0x5F0F3CF5, 0)), (CMAP_TAG, cmap)]);
    let font = load_font(bytes).unwrap();
    assert_eq!(glyph_id_for(&font, 65), 0);
}

#[test]
fn subtable_offset_past_buffer_is_truncated() {
    let f4 = format4_bytes(4, &[(65, 90, 0, 0), (0xFFFF, 0xFFFF, 1, 0)], &[]);
    let cmap = cmap_bytes(&[(3, 1, 0xFFFF)], &f4);
    let bytes = build_font(&[(HEAD_TAG, head_bytes(0x5F0F3CF5, 0)), (CMAP_TAG, cmap)]);
    assert_eq!(load_font(bytes).unwrap_err(), FontError::TruncatedBuffer);
}
