//! The parsing session: owns the byte cursor and the immutable results of
//! the pipeline stages — table directory, glyph location table, glyph
//! collection and Unicode index.
//!
//! Each stage method wraps the corresponding pipeline function and stores
//! its result; `parse_font` composes all four.  Consumers read the public
//! fields or look points up through them; the parsed outputs are never
//! mutated after their stage completes.

use vstd::prelude::*;
use crate::FontError;
use crate::font_reader::FontReader;
use crate::directory::{TableDirectory, dir_parse_ok, directory_post, spec_dir_entries};
use crate::location::{
    location_error, location_success, locations_match, spec_locations,
};
use crate::glyph::{GlyphDecodeError, GlyphRecord, glyph_parse_ok, glyphs_match, glyphs_success};
use crate::cmap::{UnicodeIndex, cmap_error, cmap_spec_lookup, cmap_success, spec_get};

verus! {

/// A font parsing session: the cursor over the font buffer and the
/// outputs of the four pipeline stages, each filled in by its method.
pub struct FontTableParser {
    pub reader: FontReader,
    pub font_table: TableDirectory,
    pub glyph_locations: Vec<u64>,
    pub glyphs: Vec<GlyphRecord>,
    pub unicodes_to_index: UnicodeIndex,
}

impl FontTableParser {
    /// A fresh session over an in-memory font buffer: the cursor at the
    /// start, every stage output empty.
    pub fn new(data: Vec<u8>) -> (r: FontTableParser)
        ensures
            r.reader.bytes() == data@,
            r.reader.position() == 0,
            r.font_table.entries() == Seq::<(u32, u32)>::empty(),
            r.glyph_locations@ == Seq::<u64>::empty(),
            r.glyphs@ == Seq::<GlyphRecord>::empty(),
            r.unicodes_to_index.entries() == Seq::<(u32, u64)>::empty(),
    {
        FontTableParser {
            reader: FontReader::new(data),
            font_table: TableDirectory::new(),
            glyph_locations: Vec::new(),
            glyphs: Vec::new(),
            unicodes_to_index: UnicodeIndex::new(),
        }
    }

    /// Reads the table directory into `font_table`.  See
    /// [`crate::directory::get_lookup_table`].
    pub fn get_lookup_table(&mut self) -> (r: Result<(), FontError>)
        requires
            old(self).reader.position() == 0,
        ensures
            final(self).reader.bytes() == old(self).reader.bytes(),
            final(self).glyph_locations == old(self).glyph_locations,
            final(self).glyphs == old(self).glyphs,
            final(self).unicodes_to_index == old(self).unicodes_to_index,
            ({
                let data = old(self).reader.bytes();
                match r {
                    Ok(()) => dir_parse_ok(data) && final(self).font_table.entries()
                        == spec_dir_entries(data),
                    Err(e) => {
                        &&& !dir_parse_ok(data)
                        &&& e == FontError::UnexpectedEndOfData
                        &&& final(self).font_table == old(self).font_table
                    },
                }
            }),
    {
        match crate::directory::get_lookup_table(&mut self.reader) {
            Ok(d) => {
                self.font_table = d;
                Ok(())
            },
            Err(e) => Err(e),
        }
    }

    /// Resolves the per-glyph `glyf` offsets into `glyph_locations`.  See
    /// [`crate::location::get_glyph_location`].
    pub fn get_glyph_location(&mut self) -> (r: Result<(), FontError>)
        ensures
            final(self).reader.bytes() == old(self).reader.bytes(),
            final(self).font_table == old(self).font_table,
            final(self).glyphs == old(self).glyphs,
            final(self).unicodes_to_index == old(self).unicodes_to_index,
            ({
                let data = old(self).reader.bytes();
                let entries = old(self).font_table.entries();
                match r {
                    Ok(()) => location_success(data, entries) && locations_match(
                        data,
                        entries,
                        final(self).glyph_locations@,
                    ),
                    Err(e) => {
                        &&& !location_success(data, entries)
                        &&& e == location_error(entries)
                        &&& final(self).glyph_locations == old(self).glyph_locations
                    },
                }
            }),
    {
        match crate::location::get_glyph_location(&mut self.reader, &self.font_table) {
            Ok(locs) => {
                self.glyph_locations = locs;
                Ok(())
            },
            Err(e) => Err(e),
        }
    }

    /// Decodes every glyph record into `glyphs`.  See
    /// [`crate::glyph::decode_glyphs`].
    pub fn get_glyphs(&mut self) -> (r: Result<(), GlyphDecodeError>)
        ensures
            final(self).reader.bytes() == old(self).reader.bytes(),
            final(self).font_table == old(self).font_table,
            final(self).glyph_locations == old(self).glyph_locations,
            final(self).unicodes_to_index == old(self).unicodes_to_index,
            ({
                let data = old(self).reader.bytes();
                let locs = old(self).glyph_locations@;
                match r {
                    Ok(()) => glyphs_success(data, locs) && glyphs_match(
                        data,
                        locs,
                        final(self).glyphs@,
                    ),
                    Err(e) => {
                        &&& e.cause == FontError::UnexpectedEndOfData
                        &&& e.glyph_index < locs.len()
                        &&& !glyph_parse_ok(data, locs[e.glyph_index as int] as int)
                        &&& forall|j: int|
                            0 <= j < e.glyph_index ==> glyph_parse_ok(
                                data,
                                #[trigger] locs[j] as int,
                            )
                        &&& final(self).glyphs == old(self).glyphs
                    },
                }
            }),
    {
        match crate::glyph::decode_glyphs(&mut self.reader, &self.glyph_locations) {
            Ok(gs) => {
                self.glyphs = gs;
                Ok(())
            },
            Err(e) => Err(e),
        }
    }

    /// Decodes the `cmap` table into `unicodes_to_index`.  See
    /// [`crate::cmap::map_glyph_to_unicode`].
    pub fn map_glyph_to_unicode(&mut self) -> (r: Result<(), FontError>)
        ensures
            final(self).reader.bytes() == old(self).reader.bytes(),
            final(self).font_table == old(self).font_table,
            final(self).glyph_locations == old(self).glyph_locations,
            final(self).glyphs == old(self).glyphs,
            ({
                let data = old(self).reader.bytes();
                let entries = old(self).font_table.entries();
                match r {
                    Ok(()) => {
                        &&& cmap_success(data, entries)
                        &&& forall|c: u32|
                            #[trigger] spec_get(final(self).unicodes_to_index.entries(), c)
                                == cmap_spec_lookup(data, entries, c)
                    },
                    Err(e) => {
                        &&& !cmap_success(data, entries)
                        &&& e == cmap_error(data, entries)
                        &&& final(self).unicodes_to_index == old(self).unicodes_to_index
                    },
                }
            }),
    {
        match crate::cmap::map_glyph_to_unicode(&mut self.reader, &self.font_table) {
            Ok(ui) => {
                self.unicodes_to_index = ui;
                Ok(())
            },
            Err(e) => Err(e),
        }
    }
}

/// Parses a whole font buffer: table directory, glyph locations, glyph
/// outlines and character map, in that order.  On success every stage's
/// output stands in the returned session; the first failing stage's
/// error is returned instead (a glyph decode failure is reported as its
/// underlying end-of-data condition).
pub fn parse_font(data: Vec<u8>) -> (r: Result<FontTableParser, FontError>)
    ensures
        ({
            let bs = data@;
            let entries = spec_dir_entries(bs);
            match r {
                Ok(p) => {
                    &&& p.reader.bytes() == bs
                    &&& dir_parse_ok(bs)
                    &&& p.font_table.entries() == entries
                    &&& location_success(bs, entries)
                    &&& locations_match(bs, entries, p.glyph_locations@)
                    &&& glyphs_success(bs, p.glyph_locations@)
                    &&& glyphs_match(bs, p.glyph_locations@, p.glyphs@)
                    &&& cmap_success(bs, entries)
                    &&& forall|c: u32|
                        #[trigger] spec_get(p.unicodes_to_index.entries(), c)
                            == cmap_spec_lookup(bs, entries, c)
                },
                Err(e) => !({
                    &&& dir_parse_ok(bs)
                    &&& location_success(bs, entries)
                    &&& glyphs_success(bs, spec_locations(bs, entries))
                    &&& cmap_success(bs, entries)
                }),
            }
        }),
{
    let mut parser = FontTableParser::new(data);
    match parser.get_lookup_table() {
        Ok(()) => {},
        Err(e) => {
            return Err(e);
        },
    }
    match parser.get_glyph_location() {
        Ok(()) => {},
        Err(e) => {
            return Err(e);
        },
    }
    assert(parser.glyph_locations@ =~= spec_locations(parser.reader.bytes(), spec_dir_entries(
        parser.reader.bytes(),
    )));
    match parser.get_glyphs() {
        Ok(()) => {},
        Err(e) => {
            return Err(e.cause);
        },
    }
    match parser.map_glyph_to_unicode() {
        Ok(()) => {},
        Err(e) => {
            return Err(e);
        },
    }
    Ok(parser)
}

} // verus!
