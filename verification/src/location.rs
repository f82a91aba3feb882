//! The glyph location resolver: using `maxp` (glyph count) and `head`
//! (loca entry width), reads the `loca` table into one absolute `glyf`
//! byte offset per glyph index.
//!
//! Short (2-byte) loca entries are stored halved and are doubled here;
//! long (4-byte) entries are direct byte offsets.  Either way the decoded
//! offset is relative to the `glyf` table base, and the resolver returns
//! `glyf` base + offset.  Multiple glyph indices may resolve to the same
//! offset (an empty glyph); that is valid data, not an error.

use vstd::prelude::*;
use crate::{FontError, TAG_GLYF, TAG_HEAD, TAG_LOCA, TAG_MAXP};
use crate::directory::{TableDirectory, spec_lookup};
use crate::font_reader::{FontReader, be16_at, be32_at};

verus! {

/// The first required table missing from the directory, in the order the
/// resolver consults them, or `None` when all four are present.
pub open spec fn first_missing_location_table(entries: Seq<(u32, u32)>) -> Option<u32> {
    if spec_lookup(entries, TAG_LOCA) is None {
        Some(TAG_LOCA)
    } else if spec_lookup(entries, TAG_GLYF) is None {
        Some(TAG_GLYF)
    } else if spec_lookup(entries, TAG_MAXP) is None {
        Some(TAG_MAXP)
    } else if spec_lookup(entries, TAG_HEAD) is None {
        Some(TAG_HEAD)
    } else {
        None
    }
}

/// The glyph count `maxp` declares: a 16-bit field 4 bytes into the table.
pub open spec fn spec_num_glyphs(data: Seq<u8>, maxp: int) -> int {
    be16_at(data, maxp + 4)
}

/// Whether `head` declares long (4-byte) loca entries: the 16-bit
/// indexToLocFormat field 50 bytes into the table, where 0 means short
/// entries and any nonzero value means long ones.
pub open spec fn spec_loca_long(data: Seq<u8>, head: int) -> bool {
    be16_at(data, head + 50) != 0
}

/// The absolute `glyf` offset of glyph `i` as the `loca` table stores it:
/// `glyf` base plus the doubled short entry or the direct long entry.
pub open spec fn spec_glyph_location(
    data: Seq<u8>,
    loca: int,
    glyf: int,
    long: bool,
    i: int,
) -> int {
    if long {
        glyf + be32_at(data, loca + 4 * i)
    } else {
        glyf + 2 * be16_at(data, loca + 2 * i)
    }
}

/// Whether every read the resolver makes lies within the buffer: the
/// `maxp` glyph count, the `head` format flag, and all loca entries.
pub open spec fn location_reads_ok(data: Seq<u8>, maxp: int, head: int, loca: int) -> bool {
    &&& maxp + 6 <= data.len()
    &&& head + 52 <= data.len()
    &&& ({
        let n = spec_num_glyphs(data, maxp);
        n == 0 || (if spec_loca_long(data, head) {
            loca + 4 * n <= data.len()
        } else {
            loca + 2 * n <= data.len()
        })
    })
}

/// Whether the resolver succeeds on this buffer and directory: all four
/// required tables present, and every read within the buffer.
pub open spec fn location_success(data: Seq<u8>, entries: Seq<(u32, u32)>) -> bool {
    &&& first_missing_location_table(entries) is None
    &&& location_reads_ok(
        data,
        spec_lookup(entries, TAG_MAXP).unwrap() as int,
        spec_lookup(entries, TAG_HEAD).unwrap() as int,
        spec_lookup(entries, TAG_LOCA).unwrap() as int,
    )
}

/// The error the resolver reports when it fails: the first missing
/// required table, else the end-of-data condition.
pub open spec fn location_error(entries: Seq<(u32, u32)>) -> FontError {
    match first_missing_location_table(entries) {
        Some(tag) => FontError::MissingRequiredTable(tag),
        None => FontError::UnexpectedEndOfData,
    }
}

/// Whether `locs` is the location table this buffer and directory
/// describe: one absolute offset per glyph index, each the `glyf` base
/// plus the decoded loca entry, hence never below the `glyf` base.
pub open spec fn locations_match(data: Seq<u8>, entries: Seq<(u32, u32)>, locs: Seq<u64>) -> bool {
    let maxp = spec_lookup(entries, TAG_MAXP).unwrap() as int;
    let head = spec_lookup(entries, TAG_HEAD).unwrap() as int;
    let loca = spec_lookup(entries, TAG_LOCA).unwrap() as int;
    let glyf = spec_lookup(entries, TAG_GLYF).unwrap() as int;
    let n = spec_num_glyphs(data, maxp);
    let long = spec_loca_long(data, head);
    &&& locs.len() == n
    &&& forall|i: int| 0 <= i < n ==> locs[i] == spec_glyph_location(data, loca, glyf, long, i)
    &&& forall|i: int| 0 <= i < n ==> locs[i] >= glyf
}

/// The location table this buffer and directory describe, as a sequence.
pub open spec fn spec_locations(data: Seq<u8>, entries: Seq<(u32, u32)>) -> Seq<u64> {
    let maxp = spec_lookup(entries, TAG_MAXP).unwrap() as int;
    let head = spec_lookup(entries, TAG_HEAD).unwrap() as int;
    let loca = spec_lookup(entries, TAG_LOCA).unwrap() as int;
    let glyf = spec_lookup(entries, TAG_GLYF).unwrap() as int;
    Seq::new(
        spec_num_glyphs(data, maxp) as nat,
        |i: int| spec_glyph_location(data, loca, glyf, spec_loca_long(data, head), i) as u64,
    )
}

/// Resolves the per-glyph absolute `glyf` offsets.
///
/// Missing any of `loca`, `glyf`, `maxp`, `head` in the directory is fatal:
/// the first missing one (in that order) is named in
/// `MissingRequiredTable`, and nothing is read from the buffer.  Otherwise
/// the resolver reads the glyph count from `maxp`, the entry width from
/// `head`, and exactly `num_glyphs` loca entries; a read past the end of
/// the buffer yields `UnexpectedEndOfData`.  On success the table holds
/// exactly `num_glyphs` offsets, each at least the `glyf` table base.
pub fn get_glyph_location(reader: &mut FontReader, dir: &TableDirectory) -> (r: Result<
    Vec<u64>,
    FontError,
>)
    ensures
        final(reader).bytes() == old(reader).bytes(),
        ({
            let data = old(reader).bytes();
            let entries = dir.entries();
            match r {
                Ok(locs) => location_success(data, entries) && locations_match(
                    data,
                    entries,
                    locs@,
                ),
                Err(e) => !location_success(data, entries) && e == location_error(entries),
            }
        }),
{
    let ghost data = reader.bytes();
    let loca_table_loc = match dir.lookup(TAG_LOCA) {
        Some(v) => v,
        None => {
            return Err(FontError::MissingRequiredTable(TAG_LOCA));
        },
    };
    let glyf_table_loc = match dir.lookup(TAG_GLYF) {
        Some(v) => v,
        None => {
            return Err(FontError::MissingRequiredTable(TAG_GLYF));
        },
    };
    let maxp_loc = match dir.lookup(TAG_MAXP) {
        Some(v) => v,
        None => {
            return Err(FontError::MissingRequiredTable(TAG_MAXP));
        },
    };
    let head_loc = match dir.lookup(TAG_HEAD) {
        Some(v) => v,
        None => {
            return Err(FontError::MissingRequiredTable(TAG_HEAD));
        },
    };

    reader.go_to(maxp_loc as u64 + 4);
    let num_glyphs = match reader.read_u16() {
        Ok(v) => v,
        Err(e) => {
            return Err(e);
        },
    };

    reader.go_to(head_loc as u64 + 50);
    let loca_format = match reader.read_i16() {
        Ok(v) => v,
        Err(e) => {
            return Err(e);
        },
    };
    let is_two_byte_entry = loca_format == 0;

    reader.go_to(loca_table_loc as u64);
    let mut glyph_locations: Vec<u64> = Vec::new();
    let mut i: usize = 0;
    while i < num_glyphs as usize
        invariant
            reader.bytes() == data,
            i <= num_glyphs,
            glyph_locations@.len() == i,
            reader.position() == loca_table_loc + (if is_two_byte_entry {
                2 * i
            } else {
                4 * i
            }),
            i == 0 || (if is_two_byte_entry {
                loca_table_loc + 2 * i <= data.len()
            } else {
                loca_table_loc + 4 * i <= data.len()
            }),
            forall|j: int|
                0 <= j < i ==> glyph_locations@[j] == spec_glyph_location(
                    data,
                    loca_table_loc as int,
                    glyf_table_loc as int,
                    !is_two_byte_entry,
                    j,
                ),
            forall|j: int| 0 <= j < i ==> glyph_locations@[j] >= glyf_table_loc,
        decreases num_glyphs - i,
    {
        let glyph_offset: u64 = if is_two_byte_entry {
            let v = match reader.read_u16() {
                Ok(v) => v,
                Err(e) => {
                    return Err(e);
                },
            };
            v as u64 * 2
        } else {
            let v = match reader.read_u32() {
                Ok(v) => v,
                Err(e) => {
                    return Err(e);
                },
            };
            v as u64
        };
        glyph_locations.push(glyf_table_loc as u64 + glyph_offset);
        i = i + 1;
    }
    Ok(glyph_locations)
}

} // verus!
