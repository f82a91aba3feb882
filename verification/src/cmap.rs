//! The character map decoder: locates the best Unicode `cmap` subtable
//! and decodes format 4 (segmented, 16-bit) or format 12 (segmented,
//! 32-bit groups) into a code-point to glyph-index mapping.
//!
//! Subtable choice: a platform 0 (Unicode) subtable with platform-specific
//! ID 4 (full Unicode) wins, the last such record standing; one with ID 3
//! (BMP only) is accepted only while no ID-4 subtable has been seen.  No
//! qualifying subtable is fatal (`UnsupportedCharacterMap`), as is any
//! subtable format other than 4 or 12 (`UnsupportedCharacterMapFormat`).

use vstd::prelude::*;
use crate::{FontError, TAG_CMAP};
use crate::directory::{TableDirectory, spec_lookup};
use crate::font_reader::{FontReader, be16_at, be32_at};

verus! {

/// The mapping from Unicode code point to glyph index.  Not every glyph
/// index is reachable, and not every code point is mapped: a missing
/// lookup is a normal condition for unmapped characters.
pub struct UnicodeIndex {
    entries: Vec<(u32, u64)>,
}

/// The last-wins lookup over code/glyph records: the glyph index paired
/// with the latest occurrence of `code`, if any.
pub open spec fn spec_get(entries: Seq<(u32, u64)>, code: u32) -> Option<u64>
    decreases entries.len(),
{
    if entries.len() == 0 {
        None
    } else if entries.last().0 == code {
        Some(entries.last().1)
    } else {
        spec_get(entries.drop_last(), code)
    }
}

impl UnicodeIndex {
    /// The code/glyph records, in insertion order.
    pub closed spec fn entries(&self) -> Seq<(u32, u64)> {
        self.entries@
    }

    /// An empty mapping, before any subtable is decoded.
    pub fn new() -> (r: UnicodeIndex)
        ensures
            r.entries() == Seq::<(u32, u64)>::empty(),
    {
        UnicodeIndex { entries: Vec::new() }
    }

    /// The glyph index mapped to `code`, if any.
    pub fn get(&self, code: u32) -> (r: Option<u64>)
        ensures
            r == spec_get(self.entries(), code),
    {
        let n = self.entries.len();
        assert(self.entries@.take(n as int) =~= self.entries@);
        let mut i: usize = n;
        while i > 0
            invariant
                i <= n,
                n == self.entries@.len(),
                spec_get(self.entries@.take(i as int), code) == spec_get(self.entries@, code),
            decreases i,
        {
            i = i - 1;
            let (c, g) = self.entries[i];
            assert(self.entries@.take(i as int + 1).drop_last() =~= self.entries@.take(i as int));
            if c == code {
                return Some(g);
            }
        }
        assert(self.entries@.take(0) =~= Seq::<(u32, u64)>::empty());
        None
    }

    /// How many records the mapping holds.
    pub fn len(&self) -> (r: usize)
        ensures
            r == self.entries().len(),
    {
        self.entries.len()
    }
}

/// Appending one record overrides the lookup at its code and leaves every
/// other code's lookup unchanged.
proof fn lemma_get_push(es: Seq<(u32, u64)>, k: u32, v: u64)
    ensures
        forall|c: u32|
            #[trigger] spec_get(es.push((k, v)), c) == if c == k {
                Some(v)
            } else {
                spec_get(es, c)
            },
{
    assert forall|c: u32|
        #[trigger] spec_get(es.push((k, v)), c) == if c == k {
            Some(v)
        } else {
            spec_get(es, c)
        } by {
        assert(es.push((k, v)).drop_last() =~= es);
    }
}

/// The subtable offset chosen after scanning the first `k` subtable
/// records: the offset of the last platform 0 / specific 4 record, or
/// failing one, of the first platform 0 / specific 3 record.
pub open spec fn spec_chosen_subtable(data: Seq<u8>, base: int, k: int) -> Option<int>
    decreases k,
{
    if k <= 0 {
        None
    } else {
        let p = base + 4 + 8 * (k - 1);
        let prev = spec_chosen_subtable(data, base, k - 1);
        let pid = be16_at(data, p);
        let psid = be16_at(data, p + 2);
        let off = be32_at(data, p + 4);
        if pid == 0 && psid == 4 {
            Some(off)
        } else if pid == 0 && psid == 3 && prev is None {
            Some(off)
        } else {
            prev
        }
    }
}

/// The number of `cmap` subtable records, stored 2 bytes past the table
/// base.
pub open spec fn spec_num_subtables(data: Seq<u8>, base: int) -> int {
    be16_at(data, base + 2)
}

/// The format 12 group count, stored 12 bytes past the subtable base.
pub open spec fn f12_num_groups(data: Seq<u8>, sub: int) -> int {
    be32_at(data, sub + 12)
}

/// The format 12 lookup after the first `j` groups: the last group whose
/// inclusive code range holds `c` maps it, with the glyph index rising by
/// one per code point from the group's start glyph.
pub open spec fn f12_lookup(data: Seq<u8>, sub: int, j: int, c: int) -> Option<u64>
    decreases j,
{
    if j <= 0 {
        None
    } else {
        let p = sub + 16 + 12 * (j - 1);
        let s = be32_at(data, p);
        let e = be32_at(data, p + 4);
        let g = be32_at(data, p + 8);
        if s <= c <= e {
            Some((g + (c - s)) as u64)
        } else {
            f12_lookup(data, sub, j - 1, c)
        }
    }
}

/// The format 4 segment count: half the stored doubled count.
pub open spec fn f4_seg_count(data: Seq<u8>, sub: int) -> int {
    be16_at(data, sub + 6) / 2
}

/// Segment `i`'s inclusive end code.
pub open spec fn f4_end(data: Seq<u8>, sub: int, i: int) -> int {
    be16_at(data, sub + 14 + 2 * i)
}

/// Segment `i`'s inclusive start code.
pub open spec fn f4_start(data: Seq<u8>, sub: int, seg: int, i: int) -> int {
    be16_at(data, sub + 16 + 2 * seg + 2 * i)
}

/// Segment `i`'s delta, stored as 16 bits and used modulo 65536.
pub open spec fn f4_delta(data: Seq<u8>, sub: int, seg: int, i: int) -> int {
    be16_at(data, sub + 16 + 4 * seg + 2 * i)
}

/// The absolute position at which segment `i`'s range-offset value is
/// stored; the indirect lookup is relative to this position.
pub open spec fn f4_range_pos(sub: int, seg: int, i: int) -> int {
    sub + 16 + 6 * seg + 2 * i
}

/// Segment `i`'s range-offset value.
pub open spec fn f4_range(data: Seq<u8>, sub: int, seg: int, i: int) -> int {
    be16_at(data, f4_range_pos(sub, seg, i))
}

/// Where segment `i` sends code `c` for its indirect glyph lookup: the
/// position of the range-offset value, plus that value, plus twice the
/// code's offset into the segment.
pub open spec fn f4_indirect_pos(data: Seq<u8>, sub: int, seg: int, i: int, c: int) -> int {
    f4_range_pos(sub, seg, i) + f4_range(data, sub, seg, i) + 2 * (c - f4_start(
        data,
        sub,
        seg,
        i,
    ))
}

/// Whether mapping code `c` through segment `i` stays within the buffer:
/// always for a direct (zero range-offset) segment, else the indirect
/// position must be readable.
pub open spec fn f4_code_ok(data: Seq<u8>, sub: int, seg: int, i: int, c: int) -> bool {
    f4_range(data, sub, seg, i) == 0 || f4_indirect_pos(data, sub, seg, i, c) + 2 <= data.len()
}

/// The glyph index segment `i` assigns to code `c`: `(c + delta) mod
/// 65536` for a direct segment; for an indirect one, the 16-bit value at
/// the indirect position plus the delta (mod 65536) when that value is
/// nonzero, and no mapping when it is zero.
pub open spec fn f4_glyph(data: Seq<u8>, sub: int, seg: int, i: int, c: int) -> Option<u64> {
    if f4_range(data, sub, seg, i) == 0 {
        Some((((c + f4_delta(data, sub, seg, i)) % 0x10000) as u64))
    } else {
        let v = be16_at(data, f4_indirect_pos(data, sub, seg, i, c));
        if v != 0 {
            Some((((v + f4_delta(data, sub, seg, i)) % 0x10000) as u64))
        } else {
            None
        }
    }
}

/// Whether every indirect lookup of every segment's code range stays
/// within the buffer.
pub open spec fn f4_all_ok(data: Seq<u8>, sub: int, seg: int) -> bool {
    forall|i: int, c: int|
        0 <= i < seg && f4_start(data, sub, seg, i) <= c <= f4_end(data, sub, i)
            ==> #[trigger] f4_code_ok(data, sub, seg, i, c)
}

/// The format 4 lookup after the first `k` segments: the last segment
/// whose inclusive range holds `c` and actually maps it (an indirect
/// zero leaves no entry, so an earlier segment's mapping survives).
pub open spec fn f4_lookup(data: Seq<u8>, sub: int, seg: int, k: int, c: int) -> Option<u64>
    decreases k,
{
    if k <= 0 {
        None
    } else {
        let i = k - 1;
        if f4_start(data, sub, seg, i) <= c <= f4_end(data, sub, i) && f4_glyph(
            data,
            sub,
            seg,
            i,
            c,
        ) is Some {
            f4_glyph(data, sub, seg, i, c)
        } else {
            f4_lookup(data, sub, seg, k - 1, c)
        }
    }
}

/// What decoding a format 12 subtable at `s` yields: the group-based
/// lookup when the group count and every group record lie within the
/// buffer, the end-of-data condition otherwise.
pub open spec fn format12_post(data: Seq<u8>, s: int, r: Result<UnicodeIndex, FontError>) -> bool {
    if s + 16 > data.len() {
        r matches Err(e) && e == FontError::UnexpectedEndOfData
    } else if f12_num_groups(data, s) == 0 || s + 16 + 12 * f12_num_groups(data, s)
        <= data.len() {
        &&& r matches Ok(ui)
        &&& forall|c: u32|
            #[trigger] spec_get(ui.entries(), c) == f12_lookup(
                data,
                s,
                f12_num_groups(data, s),
                c as int,
            )
    } else {
        r matches Err(e) && e == FontError::UnexpectedEndOfData
    }
}

/// Decodes a format 12 subtable whose base is `sub`: skips the reserved,
/// length and language fields, reads the group count, then for each group
/// (start code, end code, start glyph) inserts one mapping per code point
/// in the inclusive range, the glyph index rising by one per code.
pub fn decode_format12(reader: &mut FontReader, sub: u64) -> (r: Result<UnicodeIndex, FontError>)
    requires
        sub <= 0x2_0000_0000,
    ensures
        final(reader).bytes() == old(reader).bytes(),
        format12_post(old(reader).bytes(), sub as int, r),
{
    let ghost data = reader.bytes();
    let ghost subi = sub as int;
    reader.go_to(sub + 12);
    let n_groups = match reader.read_u32() {
        Ok(v) => v,
        Err(e) => {
            return Err(e);
        },
    };
    let mut entries: Vec<(u32, u64)> = Vec::new();
    let mut j: u32 = 0;
    while j < n_groups
        invariant
            reader.bytes() == data,
            j <= n_groups,
            n_groups == f12_num_groups(data, subi),
            reader.position() == subi + 16 + 12 * j,
            j == 0 || subi + 16 + 12 * j <= data.len(),
            forall|c: u32|
                #[trigger] spec_get(entries@, c) == f12_lookup(data, subi, j as int, c as int),
        decreases n_groups - j,
    {
        let start_char_code = match reader.read_u32() {
            Ok(v) => v,
            Err(e) => {
                return Err(e);
            },
        };
        let end_char_code = match reader.read_u32() {
            Ok(v) => v,
            Err(e) => {
                return Err(e);
            },
        };
        let start_glyph_code = match reader.read_u32() {
            Ok(v) => v,
            Err(e) => {
                return Err(e);
            },
        };
        if start_char_code <= end_char_code {
            let span: u64 = (end_char_code - start_char_code) as u64 + 1;
            let mut k: u64 = 0;
            while k < span
                invariant
                    k <= span,
                    span == end_char_code - start_char_code + 1,
                    start_char_code <= end_char_code,
                    forall|c: u32|
                        #[trigger] spec_get(entries@, c) == if start_char_code <= c
                            && c < start_char_code + k {
                            Some((start_glyph_code + (c - start_char_code)) as u64)
                        } else {
                            f12_lookup(data, subi, j as int, c as int)
                        },
                decreases span - k,
            {
                let code = start_char_code + k as u32;
                let glyph_index = start_glyph_code as u64 + k;
                proof {
                    lemma_get_push(entries@, code, glyph_index);
                }
                entries.push((code, glyph_index));
                k = k + 1;
            }
        }
        j = j + 1;
        assert forall|c: u32|
            #[trigger] spec_get(entries@, c) == f12_lookup(data, subi, j as int, c as int) by {
            assert(be32_at(data, subi + 16 + 12 * (j - 1)) == start_char_code);
        }
    }
    Ok(UnicodeIndex { entries })
}

/// What decoding a format 4 subtable at `s` yields: the segment-based
/// lookup when the segment arrays and every needed indirect read lie
/// within the buffer, the end-of-data condition otherwise.
pub open spec fn format4_post(data: Seq<u8>, s: int, r: Result<UnicodeIndex, FontError>) -> bool {
    if s + 8 > data.len() {
        r matches Err(e) && e == FontError::UnexpectedEndOfData
    } else {
        let seg = f4_seg_count(data, s);
        if !(seg == 0 || s + 16 + 8 * seg <= data.len()) {
            r matches Err(e) && e == FontError::UnexpectedEndOfData
        } else if !f4_all_ok(data, s, seg) {
            r matches Err(e) && e == FontError::UnexpectedEndOfData
        } else {
            &&& r matches Ok(ui)
            &&& forall|c: u32|
                #[trigger] spec_get(ui.entries(), c) == f4_lookup(data, s, seg, seg, c as int)
        }
    }
}

/// Decodes a format 4 subtable whose base is `sub`: reads the doubled
/// segment count, the end-code, start-code, delta and range-offset arrays
/// (recording where each range-offset value was read), then maps every
/// code of every segment, either directly through the delta or through
/// the indirect 16-bit lookup the range offset points at, restoring the
/// cursor after each indirect read.  An indirect value of zero leaves the
/// code unmapped.
pub fn decode_format4(reader: &mut FontReader, sub: u64) -> (r: Result<UnicodeIndex, FontError>)
    requires
        sub <= 0x2_0000_0000,
    ensures
        final(reader).bytes() == old(reader).bytes(),
        format4_post(old(reader).bytes(), sub as int, r),
{
    let ghost data = reader.bytes();
    let ghost s = sub as int;
    proof {
        reader.buffer_in_bounds();
    }
    reader.go_to(sub + 6);
    let seg_x2 = match reader.read_u16() {
        Ok(v) => v,
        Err(e) => {
            return Err(e);
        },
    };
    let seg: usize = (seg_x2 / 2) as usize;
    reader.skip_bytes(6);

    let mut end_codes: Vec<u16> = Vec::new();
    let mut i: usize = 0;
    while i < seg
        invariant
            reader.bytes() == data,
            i <= seg,
            seg == f4_seg_count(data, s),
            end_codes@.len() == i,
            reader.position() == s + 14 + 2 * i,
            i == 0 || s + 14 + 2 * i <= data.len(),
            forall|j: int| 0 <= j < i ==> #[trigger] end_codes@[j] == f4_end(data, s, j),
        decreases seg - i,
    {
        let v = match reader.read_u16() {
            Ok(v) => v,
            Err(e) => {
                return Err(e);
            },
        };
        end_codes.push(v);
        i = i + 1;
    }
    reader.skip_bytes(2);

    let mut start_codes: Vec<u16> = Vec::new();
    let mut i: usize = 0;
    while i < seg
        invariant
            reader.bytes() == data,
            i <= seg,
            start_codes@.len() == i,
            reader.position() == s + 16 + 2 * seg + 2 * i,
            i == 0 || s + 16 + 2 * seg + 2 * i <= data.len(),
            forall|j: int| 0 <= j < i ==> #[trigger] start_codes@[j] == f4_start(data, s, seg as int, j),
        decreases seg - i,
    {
        let v = match reader.read_u16() {
            Ok(v) => v,
            Err(e) => {
                return Err(e);
            },
        };
        start_codes.push(v);
        i = i + 1;
    }

    let mut id_deltas: Vec<u16> = Vec::new();
    let mut i: usize = 0;
    while i < seg
        invariant
            reader.bytes() == data,
            i <= seg,
            id_deltas@.len() == i,
            reader.position() == s + 16 + 4 * seg + 2 * i,
            i == 0 || s + 16 + 4 * seg + 2 * i <= data.len(),
            forall|j: int| 0 <= j < i ==> #[trigger] id_deltas@[j] == f4_delta(data, s, seg as int, j),
        decreases seg - i,
    {
        let v = match reader.read_u16() {
            Ok(v) => v,
            Err(e) => {
                return Err(e);
            },
        };
        id_deltas.push(v);
        i = i + 1;
    }

    let mut id_range_offsets: Vec<(u64, u16)> = Vec::new();
    let mut i: usize = 0;
    while i < seg
        invariant
            reader.bytes() == data,
            i <= seg,
            id_range_offsets@.len() == i,
            reader.position() == s + 16 + 6 * seg + 2 * i,
            i == 0 || s + 16 + 6 * seg + 2 * i <= data.len(),
            forall|j: int|
                0 <= j < i ==> (#[trigger] id_range_offsets@[j]).0 == f4_range_pos(
                    s,
                    seg as int,
                    j,
                ) && id_range_offsets@[j].1 == f4_range(data, s, seg as int, j),
        decreases seg - i,
    {
        let here = reader.get_location();
        let v = match reader.read_u16() {
            Ok(v) => v,
            Err(e) => {
                return Err(e);
            },
        };
        id_range_offsets.push((here, v));
        i = i + 1;
    }

    let mut entries: Vec<(u32, u64)> = Vec::new();
    let mut i: usize = 0;
    while i < seg
        invariant
            reader.bytes() == data,
            i <= seg,
            seg == f4_seg_count(data, s),
            seg == 0 || s + 16 + 8 * seg <= data.len(),
            end_codes@.len() == seg,
            start_codes@.len() == seg,
            id_deltas@.len() == seg,
            id_range_offsets@.len() == seg,
            forall|j: int| 0 <= j < seg ==> #[trigger] end_codes@[j] == f4_end(data, s, j),
            forall|j: int|
                0 <= j < seg ==> #[trigger] start_codes@[j] == f4_start(data, s, seg as int, j),
            forall|j: int|
                0 <= j < seg ==> #[trigger] id_deltas@[j] == f4_delta(data, s, seg as int, j),
            forall|j: int|
                0 <= j < seg ==> (#[trigger] id_range_offsets@[j]).0 == f4_range_pos(
                    s,
                    seg as int,
                    j,
                ) && id_range_offsets@[j].1 == f4_range(data, s, seg as int, j),
            forall|c: u32|
                #[trigger] spec_get(entries@, c) == f4_lookup(data, s, seg as int, i as int, c as int),
            forall|ii: int, c: int|
                0 <= ii < i && f4_start(data, s, seg as int, ii) <= c <= f4_end(data, s, ii)
                    ==> #[trigger] f4_code_ok(data, s, seg as int, ii, c),
        decreases seg - i,
    {
        let end_code = end_codes[i];
        let start_code = start_codes[i];
        let delta = id_deltas[i];
        let (ro_pos, ro) = id_range_offsets[i];
        let mut cur: u32 = start_code as u32;
        while cur <= end_code as u32
            invariant
                reader.bytes() == data,
                cur == start_code || (start_code <= cur <= end_code as int + 1),
                forall|c: u32|
                    #[trigger] spec_get(entries@, c) == if start_code <= c && c < cur
                        && f4_glyph(data, s, seg as int, i as int, c as int) is Some {
                        f4_glyph(data, s, seg as int, i as int, c as int)
                    } else {
                        f4_lookup(data, s, seg as int, i as int, c as int)
                    },
                forall|c: int|
                    start_code <= c < cur ==> #[trigger] f4_code_ok(data, s, seg as int, i as int, c),
            decreases end_code + 1 - cur,
        {
            let glyph_opt: Option<u64> = if ro == 0 {
                Some(((cur + delta as u32) % 0x10000) as u64)
            } else {
                let addr = ro_pos + ro as u64 + 2 * (cur - start_code as u32) as u64;
                assert(addr == f4_indirect_pos(data, s, seg as int, i as int, cur as int));
                let saved = reader.get_location();
                reader.go_to(addr);
                let v = match reader.read_u16() {
                    Ok(v) => v,
                    Err(e) => {
                        proof {
                            assert(!f4_code_ok(data, s, seg as int, i as int, cur as int));
                            assert(!f4_all_ok(data, s, seg as int));
                        }
                        return Err(e);
                    },
                };
                reader.go_to(saved);
                if v != 0 {
                    Some(((v as u32 + delta as u32) % 0x10000) as u64)
                } else {
                    None
                }
            };
            match glyph_opt {
                Some(glyph_index) => {
                    proof {
                        lemma_get_push(entries@, cur, glyph_index);
                    }
                    entries.push((cur, glyph_index));
                },
                None => {},
            }
            cur = cur + 1;
        }
        i = i + 1;
        assert forall|c: u32|
            #[trigger] spec_get(entries@, c) == f4_lookup(data, s, seg as int, i as int, c as int)
        by {
            assert(f4_end(data, s, i - 1) == end_code);
        }
    }
    assert(f4_all_ok(data, s, seg as int));
    Ok(UnicodeIndex { entries })
}

/// Whether a format 12 subtable at `sub` decodes: the group count and
/// every group record lie within the buffer.
pub open spec fn f12_success(data: Seq<u8>, sub: int) -> bool {
    &&& sub + 16 <= data.len()
    &&& (f12_num_groups(data, sub) == 0 || sub + 16 + 12 * f12_num_groups(data, sub)
        <= data.len())
}

/// Whether a format 4 subtable at `sub` decodes: the segment count, the
/// four segment arrays and every needed indirect read lie within the
/// buffer.
pub open spec fn f4_success(data: Seq<u8>, sub: int) -> bool {
    &&& sub + 8 <= data.len()
    &&& ({
        let seg = f4_seg_count(data, sub);
        &&& (seg == 0 || sub + 16 + 8 * seg <= data.len())
        &&& f4_all_ok(data, sub, seg)
    })
}

/// Whether the whole character map decode succeeds on this buffer and
/// directory: the `cmap` table present, its records readable, a Unicode
/// subtable chosen, and that subtable of format 4 or 12 and fully
/// decodable.
pub open spec fn cmap_success(data: Seq<u8>, entries: Seq<(u32, u32)>) -> bool {
    &&& spec_lookup(entries, TAG_CMAP) is Some
    &&& ({
        let base = spec_lookup(entries, TAG_CMAP).unwrap() as int;
        &&& base + 4 <= data.len()
        &&& ({
            let nsub = spec_num_subtables(data, base);
            &&& (nsub == 0 || base + 4 + 8 * nsub <= data.len())
            &&& spec_chosen_subtable(data, base, nsub) is Some
            &&& ({
                let sub = base + spec_chosen_subtable(data, base, nsub).unwrap();
                &&& sub + 2 <= data.len()
                &&& ({
                    let fmt = be16_at(data, sub);
                    if fmt == 12 {
                        f12_success(data, sub)
                    } else if fmt == 4 {
                        f4_success(data, sub)
                    } else {
                        false
                    }
                })
            })
        })
    })
}

/// The error the character map decode reports when it fails, in the
/// order the conditions are discovered.
pub open spec fn cmap_error(data: Seq<u8>, entries: Seq<(u32, u32)>) -> FontError {
    if spec_lookup(entries, TAG_CMAP) is None {
        FontError::MissingRequiredTable(TAG_CMAP)
    } else {
        let base = spec_lookup(entries, TAG_CMAP).unwrap() as int;
        if base + 4 > data.len() {
            FontError::UnexpectedEndOfData
        } else {
            let nsub = spec_num_subtables(data, base);
            if !(nsub == 0 || base + 4 + 8 * nsub <= data.len()) {
                FontError::UnexpectedEndOfData
            } else if spec_chosen_subtable(data, base, nsub) is None {
                FontError::UnsupportedCharacterMap
            } else {
                let sub = base + spec_chosen_subtable(data, base, nsub).unwrap();
                if sub + 2 > data.len() {
                    FontError::UnexpectedEndOfData
                } else {
                    let fmt = be16_at(data, sub);
                    if fmt == 12 || fmt == 4 {
                        FontError::UnexpectedEndOfData
                    } else {
                        FontError::UnsupportedCharacterMapFormat(fmt as u16)
                    }
                }
            }
        }
    }
}

/// The glyph index the character map assigns to code point `c`
/// (meaningful when `cmap_success`): the chosen subtable's format 12 or
/// format 4 lookup.
pub open spec fn cmap_spec_lookup(data: Seq<u8>, entries: Seq<(u32, u32)>, c: u32) -> Option<
    u64,
> {
    let base = spec_lookup(entries, TAG_CMAP).unwrap() as int;
    let nsub = spec_num_subtables(data, base);
    let sub = base + spec_chosen_subtable(data, base, nsub).unwrap();
    let fmt = be16_at(data, sub);
    if fmt == 12 {
        f12_lookup(data, sub, f12_num_groups(data, sub), c as int)
    } else {
        f4_lookup(data, sub, f4_seg_count(data, sub), f4_seg_count(data, sub), c as int)
    }
}

/// Decodes the `cmap` table into the code-point to glyph-index mapping.
///
/// The table must stand in the directory (`MissingRequiredTable`
/// otherwise).  The decoder reads the subtable records, chooses the best
/// Unicode subtable (the last platform 0 / specific 4 record, else the
/// first platform 0 / specific 3 one; none is
/// `UnsupportedCharacterMap`), reads its format selector and decodes
/// format 4 or 12; any other format is `UnsupportedCharacterMapFormat`,
/// and any read past the buffer end is `UnexpectedEndOfData`.
pub fn map_glyph_to_unicode(reader: &mut FontReader, dir: &TableDirectory) -> (r: Result<
    UnicodeIndex,
    FontError,
>)
    ensures
        final(reader).bytes() == old(reader).bytes(),
        ({
            let data = old(reader).bytes();
            let entries = dir.entries();
            match r {
                Ok(ui) => {
                    &&& cmap_success(data, entries)
                    &&& forall|c: u32|
                        #[trigger] spec_get(ui.entries(), c) == cmap_spec_lookup(
                            data,
                            entries,
                            c,
                        )
                },
                Err(e) => !cmap_success(data, entries) && e == cmap_error(data, entries),
            }
        }),
{
    let ghost data = reader.bytes();
    let base = match dir.lookup(TAG_CMAP) {
        Some(v) => v,
        None => {
            return Err(FontError::MissingRequiredTable(TAG_CMAP));
        },
    };
    reader.go_to(base as u64);
    reader.skip_bytes(2);
    let n_subtables = match reader.read_u16() {
        Ok(v) => v,
        Err(e) => {
            return Err(e);
        },
    };
    let mut chosen: Option<u32> = None;
    let mut k: usize = 0;
    while k < n_subtables as usize
        invariant
            reader.bytes() == data,
            k <= n_subtables,
            reader.position() == base + 4 + 8 * k,
            k == 0 || base + 4 + 8 * k <= data.len(),
            match spec_chosen_subtable(data, base as int, k as int) {
                None => chosen is None,
                Some(o) => chosen matches Some(co) && co == o,
            },
        decreases n_subtables - k,
    {
        let platform_id = match reader.read_u16() {
            Ok(v) => v,
            Err(e) => {
                return Err(e);
            },
        };
        let platform_specific_id = match reader.read_u16() {
            Ok(v) => v,
            Err(e) => {
                return Err(e);
            },
        };
        let offset = match reader.read_u32() {
            Ok(v) => v,
            Err(e) => {
                return Err(e);
            },
        };
        if platform_id == 0 {
            if platform_specific_id == 4 {
                chosen = Some(offset);
            }
            if platform_specific_id == 3 && chosen.is_none() {
                chosen = Some(offset);
            }
        }
        k = k + 1;
    }
    let cmap_subtable_offset = match chosen {
        Some(o) => o,
        None => {
            return Err(FontError::UnsupportedCharacterMap);
        },
    };
    let sub = base as u64 + cmap_subtable_offset as u64;
    reader.go_to(sub);
    let format = match reader.read_u16() {
        Ok(v) => v,
        Err(e) => {
            return Err(e);
        },
    };
    if format == 12 {
        decode_format12(reader, sub)
    } else if format == 4 {
        decode_format4(reader, sub)
    } else {
        Err(FontError::UnsupportedCharacterMapFormat(format))
    }
}

} // verus!
