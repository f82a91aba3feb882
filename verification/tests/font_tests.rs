use truetype::FontError;
use truetype::font_reader::FontReader;
use truetype::glyph::{GlyphRecord, decode_flags, decode_glyph};
use truetype::parser::{FontTableParser, parse_font};
use truetype::{TAG_CMAP, TAG_GLYF, TAG_LOCA};

fn push_u16(out: &mut Vec<u8>, v: u16) {
    out.extend_from_slice(&v.to_be_bytes());
}

fn push_u32(out: &mut Vec<u8>, v: u32) {
    out.extend_from_slice(&v.to_be_bytes());
}

/// Builds a font buffer: scaler tag, table count, search hints, one
/// 16-byte directory record per table, then the table payloads packed in
/// order.
fn build_font(tables: &[(&[u8; 4], Vec<u8>)]) -> Vec<u8> {
    let mut out = Vec::new();
    push_u32(&mut out, 0x0001_0000); // scaler/version tag, skipped
    push_u16(&mut out, tables.len() as u16);
    out.extend_from_slice(&[0; 6]); // searchRange, entrySelector, rangeShift
    let mut offset = 12 + 16 * tables.len() as u32;
    for (tag, body) in tables {
        out.extend_from_slice(*tag);
        push_u32(&mut out, 0); // checksum, discarded
        push_u32(&mut out, offset);
        push_u32(&mut out, body.len() as u32);
        offset += body.len() as u32;
    }
    for (_, body) in tables {
        out.extend_from_slice(body);
    }
    out
}

/// A `head` table: only the indexToLocFormat field (50 bytes in) matters.
fn head_table(long_loca: bool) -> Vec<u8> {
    let mut t = vec![0; 52];
    t[51] = if long_loca { 1 } else { 0 };
    t
}

/// A `maxp` table: version then the glyph count.
fn maxp_table(num_glyphs: u16) -> Vec<u8> {
    let mut t = vec![0; 4];
    push_u16(&mut t, num_glyphs);
    t
}

/// A short-format `loca` table: each stored entry is half the true
/// `glyf`-relative offset.
fn loca_short(halved_offsets: &[u16]) -> Vec<u8> {
    let mut t = Vec::new();
    for &o in halved_offsets {
        push_u16(&mut t, o);
    }
    t
}

/// A simple glyf record: contour count, bounding box, contour ends, no
/// instructions, one flag byte per point, then the axis deltas.
fn glyf_record(contour_ends: &[u16], flags: &[u8], xs: &[u8], ys: &[u8]) -> Vec<u8> {
    let mut t = Vec::new();
    push_u16(&mut t, contour_ends.len() as u16);
    t.extend_from_slice(&[0; 8]); // bounding box, skipped
    for &e in contour_ends {
        push_u16(&mut t, e);
    }
    push_u16(&mut t, 0); // no instruction bytes
    t.extend_from_slice(flags);
    t.extend_from_slice(xs);
    t.extend_from_slice(ys);
    t
}

/// A `cmap` table with one subtable record (platform 0) and its payload.
fn cmap_table(platform_specific_id: u16, subtable: Vec<u8>) -> Vec<u8> {
    let mut t = Vec::new();
    push_u16(&mut t, 0); // version
    push_u16(&mut t, 1); // one subtable record
    push_u16(&mut t, 0); // platform 0: Unicode
    push_u16(&mut t, platform_specific_id);
    push_u32(&mut t, 12); // subtable follows the record
    t.extend_from_slice(&subtable);
    t
}

/// A format 12 subtable from (start code, end code, start glyph) groups.
fn cmap_format12(groups: &[(u32, u32, u32)]) -> Vec<u8> {
    let mut t = Vec::new();
    push_u16(&mut t, 12);
    t.extend_from_slice(&[0; 10]); // reserved, length, language
    push_u32(&mut t, groups.len() as u32);
    for &(start, end, glyph) in groups {
        push_u32(&mut t, start);
        push_u32(&mut t, end);
        push_u32(&mut t, glyph);
    }
    t
}

/// A format 4 subtable from (end, start, delta, range offset) segments,
/// with `glyph_ids` packed right after the range-offset array.
fn cmap_format4(segments: &[(u16, u16, u16, u16)], glyph_ids: &[u16]) -> Vec<u8> {
    let mut t = Vec::new();
    push_u16(&mut t, 4);
    t.extend_from_slice(&[0; 4]); // length, language
    push_u16(&mut t, 2 * segments.len() as u16);
    t.extend_from_slice(&[0; 6]); // searchRange, entrySelector, rangeShift
    for &(end, _, _, _) in segments {
        push_u16(&mut t, end);
    }
    push_u16(&mut t, 0); // reservedPad
    for &(_, start, _, _) in segments {
        push_u16(&mut t, start);
    }
    for &(_, _, delta, _) in segments {
        push_u16(&mut t, delta);
    }
    for &(_, _, _, range_offset) in segments {
        push_u16(&mut t, range_offset);
    }
    for &g in glyph_ids {
        push_u16(&mut t, g);
    }
    t
}

/// One triangle glyph: three on-curve points, one contour ending at
/// index 2, and a format 12 character map.
fn triangle_font() -> Vec<u8> {
    build_font(&[
        (b"head", head_table(false)),
        (b"maxp", maxp_table(1)),
        (b"loca", loca_short(&[0])),
        // flags 0x37: on-curve, short X, short Y, X and Y positive
        (b"glyf", glyf_record(&[2], &[0x37, 0x37, 0x37], &[10, 20, 30], &[5, 6, 7])),
        (b"cmap", cmap_table(4, cmap_format12(&[(0x41, 0x43, 100)]))),
    ])
}

fn parse_stages(data: Vec<u8>) -> FontTableParser {
    let mut p = FontTableParser::new(data);
    p.get_lookup_table().unwrap();
    p.get_glyph_location().unwrap();
    p.get_glyphs().unwrap();
    p.map_glyph_to_unicode().unwrap();
    p
}

#[test]
fn location_table_has_one_offset_per_glyph() {
    let p = parse_stages(triangle_font());
    let glyf_base = p.font_table.lookup(TAG_GLYF).unwrap() as u64;
    assert_eq!(p.glyph_locations.len(), 1);
    for &loc in &p.glyph_locations {
        assert!(loc >= glyf_base);
    }
    assert_eq!(p.glyph_locations[0], glyf_base);
}

#[test]
fn triangle_round_trip() {
    let p = parse_stages(triangle_font());
    assert_eq!(p.glyphs.len(), 1);
    match &p.glyphs[0] {
        GlyphRecord::Simple(g) => {
            assert_eq!(g.contour_end_pts, vec![2]);
            assert_eq!(g.coordinates.len(), 3);
            let expected = [(10, 5), (30, 11), (60, 18)];
            for (i, &(x, y)) in expected.iter().enumerate() {
                assert_eq!(g.coordinates[i].0.x, x);
                assert_eq!(g.coordinates[i].0.y, y);
                assert!(g.coordinates[i].1, "point {} must be on-curve", i);
            }
        },
        GlyphRecord::Compound => panic!("expected a simple glyph"),
    }
}

#[test]
fn compound_glyph_detected_without_reading_past_count() {
    let mut r = FontReader::new(vec![0xFF, 0xFF, 0xAB, 0xCD]);
    let rec = decode_glyph(&mut r, 0).unwrap();
    assert!(matches!(rec, GlyphRecord::Compound));
    // the cursor stands directly after the two count bytes
    assert_eq!(r.get_location(), 2);
}

#[test]
fn long_loca_entries_are_direct() {
    let mut loca = Vec::new();
    push_u32(&mut loca, 0);
    let data = build_font(&[
        (b"head", head_table(true)),
        (b"maxp", maxp_table(1)),
        (b"loca", loca),
        (b"glyf", glyf_record(&[0], &[0x37], &[9], &[4])),
        (b"cmap", cmap_table(4, cmap_format12(&[]))),
    ]);
    let p = parse_stages(data);
    match &p.glyphs[0] {
        GlyphRecord::Simple(g) => {
            assert_eq!(g.coordinates.len(), 1);
            assert_eq!(g.coordinates[0].0.x, 9);
            assert_eq!(g.coordinates[0].0.y, 4);
        },
        GlyphRecord::Compound => panic!("expected a simple glyph"),
    }
}

#[test]
fn format4_direct_segment_maps_inclusive_range() {
    let data = build_font(&[
        (b"head", head_table(false)),
        (b"maxp", maxp_table(1)),
        (b"loca", loca_short(&[0])),
        (b"glyf", glyf_record(&[0], &[0x37], &[1], &[1])),
        (b"cmap", cmap_table(4, cmap_format4(&[(0x43, 0x41, 100, 0)], &[]))),
    ]);
    let p = parse_stages(data);
    assert_eq!(p.unicodes_to_index.get(0x41), Some(0x41 + 100));
    assert_eq!(p.unicodes_to_index.get(0x42), Some(0x42 + 100));
    assert_eq!(p.unicodes_to_index.get(0x43), Some(0x43 + 100));
    assert_eq!(p.unicodes_to_index.get(0x40), None);
    assert_eq!(p.unicodes_to_index.get(0x44), None);
}

#[test]
fn format4_indirect_segment_reads_glyph_array() {
    // range offset 2 sends code 0x41 to the first glyph id after the
    // range-offset array; the zero id leaves 0x42 unmapped
    let data = build_font(&[
        (b"head", head_table(false)),
        (b"maxp", maxp_table(1)),
        (b"loca", loca_short(&[0])),
        (b"glyf", glyf_record(&[0], &[0x37], &[1], &[1])),
        (b"cmap", cmap_table(4, cmap_format4(&[(0x42, 0x41, 0, 2)], &[7, 0]))),
    ]);
    let p = parse_stages(data);
    assert_eq!(p.unicodes_to_index.get(0x41), Some(7));
    assert_eq!(p.unicodes_to_index.get(0x42), None);
}

#[test]
fn format12_group_increments_glyph_index() {
    let data = build_font(&[
        (b"head", head_table(false)),
        (b"maxp", maxp_table(1)),
        (b"loca", loca_short(&[0])),
        (b"glyf", glyf_record(&[0], &[0x37], &[1], &[1])),
        (b"cmap", cmap_table(4, cmap_format12(&[(0x1F600, 0x1F602, 500)]))),
    ]);
    let p = parse_stages(data);
    assert_eq!(p.unicodes_to_index.get(0x1F600), Some(500));
    assert_eq!(p.unicodes_to_index.get(0x1F601), Some(501));
    assert_eq!(p.unicodes_to_index.get(0x1F602), Some(502));
    assert_eq!(p.unicodes_to_index.get(0x1F5FF), None);
    assert_eq!(p.unicodes_to_index.get(0x1F603), None);
}

#[test]
fn format12_later_group_wins() {
    let data = build_font(&[
        (b"head", head_table(false)),
        (b"maxp", maxp_table(1)),
        (b"loca", loca_short(&[0])),
        (b"glyf", glyf_record(&[0], &[0x37], &[1], &[1])),
        (b"cmap", cmap_table(4, cmap_format12(&[(0x41, 0x42, 10), (0x42, 0x42, 99)]))),
    ]);
    let p = parse_stages(data);
    assert_eq!(p.unicodes_to_index.get(0x41), Some(10));
    assert_eq!(p.unicodes_to_index.get(0x42), Some(99));
}

#[test]
fn flag_repeat_applies_to_following_points() {
    // flag 0x09: on-curve with bit 3 set; the next byte repeats it 5 more
    // times, for 6 points in all
    let mut r = FontReader::new(vec![0x09, 5]);
    let flags = decode_flags(&mut r, 6).unwrap();
    assert_eq!(flags, vec![0x09; 6]);
    assert_eq!(r.get_location(), 2);
}

#[test]
fn flag_repeat_truncated_to_needed_count() {
    let mut r = FontReader::new(vec![0x09, 5, 0xAA]);
    let flags = decode_flags(&mut r, 4).unwrap();
    assert_eq!(flags, vec![0x09; 4]);
    // the whole repeat pair is consumed even though the run was cut short
    assert_eq!(r.get_location(), 2);
}

#[test]
fn missing_loca_is_fatal_before_any_glyph_decode() {
    let data = build_font(&[
        (b"head", head_table(false)),
        (b"maxp", maxp_table(1)),
        (b"glyf", glyf_record(&[0], &[0x37], &[1], &[1])),
        (b"cmap", cmap_table(4, cmap_format12(&[]))),
    ]);
    let mut p = FontTableParser::new(data);
    p.get_lookup_table().unwrap();
    assert_eq!(
        p.get_glyph_location(),
        Err(FontError::MissingRequiredTable(TAG_LOCA))
    );
    assert!(p.glyph_locations.is_empty());
    assert!(p.glyphs.is_empty());
}

#[test]
fn missing_cmap_is_fatal() {
    let data = build_font(&[
        (b"head", head_table(false)),
        (b"maxp", maxp_table(1)),
        (b"loca", loca_short(&[0])),
        (b"glyf", glyf_record(&[0], &[0x37], &[1], &[1])),
    ]);
    let mut p = FontTableParser::new(data);
    p.get_lookup_table().unwrap();
    assert_eq!(
        p.map_glyph_to_unicode(),
        Err(FontError::MissingRequiredTable(TAG_CMAP))
    );
}

#[test]
fn no_unicode_subtable_is_unsupported() {
    // platform-specific id 1 qualifies as neither full nor BMP Unicode
    let data = build_font(&[
        (b"head", head_table(false)),
        (b"maxp", maxp_table(1)),
        (b"loca", loca_short(&[0])),
        (b"glyf", glyf_record(&[0], &[0x37], &[1], &[1])),
        (b"cmap", cmap_table(1, cmap_format12(&[]))),
    ]);
    let mut p = FontTableParser::new(data);
    p.get_lookup_table().unwrap();
    assert_eq!(
        p.map_glyph_to_unicode(),
        Err(FontError::UnsupportedCharacterMap)
    );
}

#[test]
fn unknown_subtable_format_is_unsupported() {
    let mut subtable = Vec::new();
    push_u16(&mut subtable, 6);
    let data = build_font(&[
        (b"head", head_table(false)),
        (b"maxp", maxp_table(1)),
        (b"loca", loca_short(&[0])),
        (b"glyf", glyf_record(&[0], &[0x37], &[1], &[1])),
        (b"cmap", cmap_table(4, subtable)),
    ]);
    let mut p = FontTableParser::new(data);
    p.get_lookup_table().unwrap();
    assert_eq!(
        p.map_glyph_to_unicode(),
        Err(FontError::UnsupportedCharacterMapFormat(6))
    );
}

#[test]
fn truncated_directory_is_end_of_data() {
    let mut data = Vec::new();
    push_u32(&mut data, 0x0001_0000);
    push_u16(&mut data, 3); // three records declared, none present
    data.extend_from_slice(&[0; 6]);
    let mut p = FontTableParser::new(data);
    assert_eq!(p.get_lookup_table(), Err(FontError::UnexpectedEndOfData));
}

#[test]
fn truncated_glyph_names_its_index() {
    // the glyf record promises 1 contour but holds nothing after the count
    let mut bad_glyf = Vec::new();
    push_u16(&mut bad_glyf, 1);
    let data = build_font(&[
        (b"head", head_table(false)),
        (b"maxp", maxp_table(1)),
        (b"loca", loca_short(&[0])),
        (b"glyf", bad_glyf),
        (b"cmap", cmap_table(4, cmap_format12(&[]))),
    ]);
    let mut p = FontTableParser::new(data);
    p.get_lookup_table().unwrap();
    p.get_glyph_location().unwrap();
    let e = p.get_glyphs().unwrap_err();
    assert_eq!(e.glyph_index, 0);
    assert_eq!(e.cause, FontError::UnexpectedEndOfData);
}

#[test]
fn parse_font_runs_all_stages() {
    let p = parse_font(triangle_font()).unwrap();
    assert_eq!(p.font_table.len(), 5);
    assert_eq!(p.glyph_locations.len(), 1);
    assert_eq!(p.glyphs.len(), 1);
    assert_eq!(p.unicodes_to_index.len(), 3);
    assert_eq!(p.unicodes_to_index.get(0x42), Some(101));
}

#[test]
fn parse_font_reports_first_failure() {
    assert!(matches!(
        parse_font(vec![0, 0, 0, 0]),
        Err(FontError::UnexpectedEndOfData)
    ));
}

#[test]
fn duplicate_table_tag_last_wins() {
    // two `maxp` records: the later one (glyph count 0) must win
    let data = build_font(&[
        (b"head", head_table(false)),
        (b"maxp", maxp_table(9)),
        (b"maxp", maxp_table(0)),
        (b"loca", loca_short(&[])),
        (b"glyf", Vec::new()),
        (b"cmap", cmap_table(4, cmap_format12(&[]))),
    ]);
    let p = parse_stages(data);
    assert_eq!(p.glyph_locations.len(), 0);
    assert_eq!(p.glyphs.len(), 0);
}
