//! The glyph outline decoder: for a glyph's offset into `glyf`, decodes
//! the contour-end indices, the run-length-encoded per-point flags and the
//! delta-encoded X/Y coordinates into absolute glyph-space points with
//! on-curve markers.
//!
//! A record whose contour-count field stores the bytes `0xFFFF` (the `-1`
//! sentinel) is a compound glyph: it is classified as such and nothing
//! past the count is read at that offset.  Any other stored count is taken
//! as the unsigned number of contours; counts whose data runs past the
//! buffer end surface as `UnexpectedEndOfData`.

use vstd::prelude::*;
use crate::FontError;
use crate::font_reader::{FontReader, be16_at, bit_is_set, i16_of, spec_bit};

verus! {

/// One absolute glyph-space point.  Coordinates are in font units.
#[derive(Clone, Copy, PartialEq, Eq, Structural, Debug)]
pub struct Point {
    pub x: i64,
    pub y: i64,
}

/// A simple glyph: its points (each with its on-curve marker, in contour
/// order) and the index, within the point list, of the last point of each
/// contour.
#[derive(Clone, Debug)]
pub struct Glyph {
    pub coordinates: Vec<(Point, bool)>,
    pub contour_end_pts: Vec<u16>,
}

/// One entry of the glyph collection: either a simple glyph with its
/// decoded outline, or a compound glyph placeholder, which carries no
/// directly usable point data.
#[derive(Clone, Debug)]
pub enum GlyphRecord {
    Simple(Glyph),
    Compound,
}

/// A glyph decode failure: the end-of-data condition together with the
/// index of the glyph whose record could not be read.
#[derive(Clone, Copy, PartialEq, Eq, Structural, Debug)]
pub struct GlyphDecodeError {
    pub glyph_index: usize,
    pub cause: FontError,
}

/// The flag run-length decoding, starting at byte offset `pos`, producing
/// exactly `n` flags: each stored byte yields one flag, and a byte with
/// bit 3 set is followed by a repeat count applying the same flag to that
/// many further points; a run is truncated once `n` flags exist.  Yields
/// the flag sequence and the offset just past the bytes consumed, or
/// `None` when the needed bytes run past the buffer end.
pub open spec fn spec_flags(data: Seq<u8>, pos: int, n: int) -> Option<(Seq<u8>, int)>
    decreases n,
{
    if n <= 0 {
        Some((Seq::empty(), pos))
    } else if pos < 0 || pos + 1 > data.len() {
        None
    } else {
        let flag = data[pos];
        if spec_bit(flag, 3) {
            if pos + 2 > data.len() {
                None
            } else {
                let k = if 1 + data[pos + 1] <= n {
                    1 + data[pos + 1]
                } else {
                    n
                };
                match spec_flags(data, pos + 2, n - k) {
                    Some((rest, end)) => Some((Seq::new(k as nat, |j: int| flag) + rest, end)),
                    None => None,
                }
            }
        } else {
            match spec_flags(data, pos + 1, n - 1) {
                Some((rest, end)) => Some((seq![flag] + rest, end)),
                None => None,
            }
        }
    }
}

/// `spec_flags` with `pre` already produced: prepends `pre` to a partial
/// decoding's flags.
pub open spec fn flags_prepend(pre: Seq<u8>, r: Option<(Seq<u8>, int)>) -> Option<(Seq<u8>, int)> {
    match r {
        Some((s, e)) => Some((pre + s, e)),
        None => None,
    }
}

/// Decodes exactly `n` per-point flags from the cursor by the run-length
/// scheme of `spec_flags`, leaving the cursor just past the flag bytes.
pub fn decode_flags(reader: &mut FontReader, n: usize) -> (r: Result<Vec<u8>, FontError>)
    requires
        n <= 0x10000,
    ensures
        final(reader).bytes() == old(reader).bytes(),
        ({
            let full = spec_flags(old(reader).bytes(), old(reader).position() as int, n as int);
            match r {
                Ok(flags) => {
                    &&& full matches Some(p)
                    &&& flags@ == p.0
                    &&& flags@.len() == n
                    &&& final(reader).position() == p.1
                },
                Err(e) => full is None && e == FontError::UnexpectedEndOfData,
            }
        }),
{
    let ghost data = reader.bytes();
    let ghost pos0 = reader.position() as int;
    let mut flags: Vec<u8> = Vec::new();
    while flags.len() < n
        invariant
            reader.bytes() == data,
            flags@.len() <= n,
            reader.position() <= data.len() || flags@.len() == 0,
            flags_prepend(
                flags@,
                spec_flags(data, reader.position() as int, n - flags@.len()),
            ) == spec_flags(data, pos0, n as int),
        decreases n - flags@.len(),
    {
        let ghost pre = flags@;
        let ghost pos_before = reader.position() as int;
        let ghost rem = n - flags@.len();
        let flag = match reader.read_byte() {
            Ok(v) => v,
            Err(e) => {
                return Err(e);
            },
        };
        if bit_is_set(flag, 3) {
            let rep = match reader.read_byte() {
                Ok(v) => v,
                Err(e) => {
                    return Err(e);
                },
            };
            let remaining = n - flags.len();
            let k = if rep as usize + 1 <= remaining {
                rep as usize + 1
            } else {
                remaining
            };
            let mut j: usize = 0;
            while j < k
                invariant
                    j <= k,
                    flags@ == pre + Seq::new(j as nat, |q: int| flag),
                decreases k - j,
            {
                assert(flags@.push(flag) =~= pre + Seq::new((j + 1) as nat, |q: int| flag));
                flags.push(flag);
                j = j + 1;
            }
            proof {
                let inner = spec_flags(data, pos_before + 2, rem - k);
                assert(spec_flags(data, pos_before, rem) == flags_prepend(
                    Seq::new(k as nat, |q: int| flag),
                    inner,
                ));
                if inner is Some {
                    let s = inner.unwrap().0;
                    assert(pre + (Seq::new(k as nat, |q: int| flag) + s) =~= (pre + Seq::new(
                        k as nat,
                        |q: int| flag,
                    )) + s);
                }
            }
        } else {
            flags.push(flag);
            proof {
                let inner = spec_flags(data, pos_before + 1, rem - 1);
                assert(spec_flags(data, pos_before, rem) == flags_prepend(seq![flag], inner));
                if inner is Some {
                    let s = inner.unwrap().0;
                    assert(pre + (seq![flag] + s) =~= (pre + seq![flag]) + s);
                    assert(pre + seq![flag] =~= pre.push(flag));
                }
            }
        }
    }
    proof {
        assert(spec_flags(data, reader.position() as int, 0) == Some(
            (Seq::<u8>::empty(), reader.position() as int),
        ));
        assert(flags@ + Seq::<u8>::empty() =~= flags@);
    }
    Ok(flags)
}

/// How many bytes one point's delta occupies on an axis whose short-vector
/// bit is `sbit` and whose sign-or-same bit is `vbit`: one byte when the
/// short bit is set, two when both bits are clear, none when only the
/// sign-or-same bit is set (the coordinate repeats).
pub open spec fn axis_step_width(flag: u8, sbit: u8, vbit: u8) -> int {
    if spec_bit(flag, sbit) {
        1
    } else if !spec_bit(flag, vbit) {
        2
    } else {
        0
    }
}

/// One point's coordinate delta on an axis: a single unsigned byte with
/// the sign taken from `vbit` (set means positive) when the short bit is
/// set; a signed 16-bit value when both bits are clear; zero otherwise.
pub open spec fn spec_axis_delta(data: Seq<u8>, pos: int, flag: u8, sbit: u8, vbit: u8) -> int {
    if spec_bit(flag, sbit) {
        if spec_bit(flag, vbit) {
            data[pos] as int
        } else {
            -(data[pos] as int)
        }
    } else if !spec_bit(flag, vbit) {
        i16_of(be16_at(data, pos))
    } else {
        0
    }
}

/// The delta decoding of one axis: for each flag in order, the absolute
/// coordinate is the previous point's coordinate (`prev`, 0 for the first
/// point) plus the delta `spec_axis_delta` reads.  Yields the absolute
/// coordinates and the offset just past the bytes consumed, or `None`
/// when a needed byte runs past the buffer end.
pub open spec fn spec_coords(
    data: Seq<u8>,
    pos: int,
    flags: Seq<u8>,
    prev: int,
    sbit: u8,
    vbit: u8,
) -> Option<(Seq<int>, int)>
    decreases flags.len(),
{
    if flags.len() == 0 {
        Some((Seq::empty(), pos))
    } else {
        let flag = flags[0];
        let w = axis_step_width(flag, sbit, vbit);
        if w > 0 && (pos < 0 || pos + w > data.len()) {
            None
        } else {
            let c = prev + spec_axis_delta(data, pos, flag, sbit, vbit);
            match spec_coords(data, pos + w, flags.drop_first(), c, sbit, vbit) {
                Some((rest, end)) => Some((seq![c] + rest, end)),
                None => None,
            }
        }
    }
}

/// `spec_coords` with `pre` already produced: prepends `pre` to a partial
/// decoding's coordinates.
pub open spec fn coords_prepend(pre: Seq<int>, r: Option<(Seq<int>, int)>) -> Option<
    (Seq<int>, int),
> {
    match r {
        Some((s, e)) => Some((pre + s, e)),
        None => None,
    }
}

/// Decodes one axis's absolute coordinates for every flag, by the delta
/// scheme of `spec_coords`, leaving the cursor just past the axis bytes.
pub fn decode_axis(reader: &mut FontReader, flags: &Vec<u8>, sbit: u8, vbit: u8) -> (r: Result<
    Vec<i64>,
    FontError,
>)
    requires
        sbit < 8,
        vbit < 8,
        flags@.len() <= 0x10000,
    ensures
        final(reader).bytes() == old(reader).bytes(),
        ({
            let full = spec_coords(
                old(reader).bytes(),
                old(reader).position() as int,
                flags@,
                0,
                sbit,
                vbit,
            );
            match r {
                Ok(cs) => {
                    &&& full matches Some(p)
                    &&& cs@.map_values(|x: i64| x as int) == p.0
                    &&& cs@.len() == flags@.len()
                    &&& final(reader).position() == p.1
                    &&& forall|j: int|
                        0 <= j < cs@.len() ==> -0x8000_0000 <= #[trigger] cs@[j]
                            <= 0x8000_0000
                },
                Err(e) => full is None && e == FontError::UnexpectedEndOfData,
            }
        }),
{
    let ghost data = reader.bytes();
    let ghost pos0 = reader.position() as int;
    let n = flags.len();
    let mut coords: Vec<i64> = Vec::new();
    let mut prev: i64 = 0;
    let mut i: usize = 0;
    proof {
        assert(flags@.skip(0) =~= flags@);
        assert(Seq::<int>::empty() + spec_coords(data, pos0, flags@, 0, sbit, vbit).unwrap().0
            =~= spec_coords(data, pos0, flags@, 0, sbit, vbit).unwrap().0);
    }
    while i < n
        invariant
            reader.bytes() == data,
            n == flags@.len(),
            i <= n,
            coords@.len() == i,
            prev == if i == 0 {
                0
            } else {
                coords@[i - 1] as int
            },
            forall|j: int|
                0 <= j < i ==> -32768 * (j + 1) <= #[trigger] coords@[j] <= 32768 * (j + 1),
            coords_prepend(
                coords@.map_values(|x: i64| x as int),
                spec_coords(
                    data,
                    reader.position() as int,
                    flags@.skip(i as int),
                    prev as int,
                    sbit,
                    vbit,
                ),
            ) == spec_coords(data, pos0, flags@, 0, sbit, vbit),
        decreases n - i,
    {
        let ghost pre = coords@.map_values(|x: i64| x as int);
        let ghost pos_before = reader.position() as int;
        let ghost prev0 = prev as int;
        let ghost rest_flags = flags@.skip(i as int);
        let flag = flags[i];
        assert(rest_flags[0] == flag);
        assert(rest_flags.drop_first() =~= flags@.skip(i as int + 1));
        let delta: i64 = if bit_is_set(flag, sbit) {
            let b = match reader.read_byte() {
                Ok(v) => v,
                Err(e) => {
                    return Err(e);
                },
            };
            if bit_is_set(flag, vbit) {
                b as i64
            } else {
                -(b as i64)
            }
        } else if !bit_is_set(flag, vbit) {
            let v = match reader.read_i16() {
                Ok(v) => v,
                Err(e) => {
                    return Err(e);
                },
            };
            v as i64
        } else {
            0
        };
        let c = prev + delta;
        coords.push(c);
        prev = c;
        i = i + 1;
        proof {
            let inner = spec_coords(data, reader.position() as int, flags@.skip(i as int), c as int, sbit, vbit);
            assert(spec_coords(data, pos_before, rest_flags, prev0, sbit, vbit) == coords_prepend(
                seq![c as int],
                inner,
            )) by {
                assert(spec_axis_delta(data, pos_before, flag, sbit, vbit) == delta as int);
            }
            if inner is Some {
                let s = inner.unwrap().0;
                assert(pre + (seq![c as int] + s) =~= (pre + seq![c as int]) + s);
            }
            assert(pre + seq![c as int] =~= coords@.map_values(|x: i64| x as int));
        }
    }
    proof {
        assert(flags@.skip(n as int) =~= Seq::<u8>::empty());
        assert(coords@.map_values(|x: i64| x as int) + Seq::<int>::empty() =~= coords@.map_values(
            |x: i64| x as int,
        ));
    }
    Ok(coords)
}

/// Decodes the absolute points for the given flags: the X axis first
/// (short-vector bit 1, sign-or-same bit 4), then the Y axis (bits 2 and
/// 5), pairing each point with its on-curve marker (flag bit 0).
pub fn get_coordinates(reader: &mut FontReader, flags: &Vec<u8>) -> (r: Result<
    Vec<(Point, bool)>,
    FontError,
>)
    requires
        flags@.len() <= 0x10000,
    ensures
        final(reader).bytes() == old(reader).bytes(),
        ({
            let data = old(reader).bytes();
            let xs_full = spec_coords(data, old(reader).position() as int, flags@, 0, 1, 4);
            match r {
                Ok(cs) => {
                    &&& xs_full matches Some(px)
                    &&& spec_coords(data, px.1, flags@, 0, 2, 5) matches Some(py)
                    &&& cs@.len() == flags@.len()
                    &&& final(reader).position() == py.1
                    &&& forall|j: int|
                        0 <= j < flags@.len() ==> {
                            &&& (#[trigger] cs@[j]).0.x == px.0[j]
                            &&& cs@[j].0.y == py.0[j]
                            &&& cs@[j].1 == spec_bit(flags@[j], 0)
                        }
                    &&& forall|j: int|
                        0 <= j < flags@.len() ==> -0x8000_0000 <= (#[trigger] cs@[j]).0.x
                            <= 0x8000_0000 && -0x8000_0000 <= cs@[j].0.y <= 0x8000_0000
                },
                Err(e) => {
                    &&& e == FontError::UnexpectedEndOfData
                    &&& (xs_full is None || (xs_full matches Some(px) && spec_coords(
                        data,
                        px.1,
                        flags@,
                        0,
                        2,
                        5,
                    ) is None))
                },
            }
        }),
{
    let xs = match decode_axis(reader, flags, 1, 4) {
        Ok(v) => v,
        Err(e) => {
            return Err(e);
        },
    };
    let ys = match decode_axis(reader, flags, 2, 5) {
        Ok(v) => v,
        Err(e) => {
            return Err(e);
        },
    };
    let mut coordinates: Vec<(Point, bool)> = Vec::new();
    let n = flags.len();
    let mut i: usize = 0;
    while i < n
        invariant
            i <= n,
            coordinates@.len() == i,
            xs@.len() == n,
            ys@.len() == n,
            forall|j: int|
                0 <= j < i ==> {
                    &&& (#[trigger] coordinates@[j]).0.x == xs@[j]
                    &&& coordinates@[j].0.y == ys@[j]
                    &&& coordinates@[j].1 == spec_bit(flags@[j], 0)
                },
        decreases n - i,
    {
        let on_curve = bit_is_set(flags[i], 0);
        coordinates.push((Point { x: xs[i], y: ys[i] }, on_curve));
        i = i + 1;
    }
    Ok(coordinates)
}

/// The stored contour-count field of the record at `loc`, as raw unsigned
/// bytes.
pub open spec fn glyph_raw_contour_count(data: Seq<u8>, loc: int) -> int {
    be16_at(data, loc)
}

/// Whether the record at `loc` is a compound glyph: its contour-count
/// bytes store `0xFFFF`, the `-1` sentinel.
pub open spec fn glyph_is_compound(data: Seq<u8>, loc: int) -> bool {
    be16_at(data, loc) == 0xFFFF
}

/// The contour-end indices of the simple glyph record at `loc`: one
/// 16-bit value per contour, 10 bytes past the record start (after the
/// count and the four skipped bounding-box fields).
pub open spec fn glyph_spec_ends(data: Seq<u8>, loc: int) -> Seq<u16> {
    Seq::new(
        glyph_raw_contour_count(data, loc) as nat,
        |i: int| be16_at(data, loc + 10 + 2 * i) as u16,
    )
}

/// The offset of the record's instruction-byte-count field, just past the
/// contour-end indices.
pub open spec fn glyph_instr_pos(data: Seq<u8>, loc: int) -> int {
    loc + 10 + 2 * glyph_raw_contour_count(data, loc)
}

/// The offset of the record's flag bytes: past the instruction count and
/// the skipped instruction bytes.
pub open spec fn glyph_flags_pos(data: Seq<u8>, loc: int) -> int {
    glyph_instr_pos(data, loc) + 2 + be16_at(data, glyph_instr_pos(data, loc))
}

/// How many points the record declares: the last contour-end index plus
/// one, or 0 when there are no contours.
pub open spec fn glyph_n_points(data: Seq<u8>, loc: int) -> int {
    if glyph_raw_contour_count(data, loc) == 0 {
        0
    } else {
        glyph_spec_ends(data, loc).last() + 1
    }
}

/// The record's decoded flag sequence (meaningful when `glyph_simple_ok`).
pub open spec fn glyph_spec_flags(data: Seq<u8>, loc: int) -> Seq<u8> {
    spec_flags(data, glyph_flags_pos(data, loc), glyph_n_points(data, loc)).unwrap().0
}

/// The offset just past the record's flag bytes.
pub open spec fn glyph_x_pos(data: Seq<u8>, loc: int) -> int {
    spec_flags(data, glyph_flags_pos(data, loc), glyph_n_points(data, loc)).unwrap().1
}

/// The record's absolute X coordinates (meaningful when
/// `glyph_simple_ok`).
pub open spec fn glyph_spec_xs(data: Seq<u8>, loc: int) -> Seq<int> {
    spec_coords(data, glyph_x_pos(data, loc), glyph_spec_flags(data, loc), 0, 1, 4).unwrap().0
}

/// The offset just past the record's X coordinate bytes.
pub open spec fn glyph_y_pos(data: Seq<u8>, loc: int) -> int {
    spec_coords(data, glyph_x_pos(data, loc), glyph_spec_flags(data, loc), 0, 1, 4).unwrap().1
}

/// The record's absolute Y coordinates (meaningful when
/// `glyph_simple_ok`).
pub open spec fn glyph_spec_ys(data: Seq<u8>, loc: int) -> Seq<int> {
    spec_coords(data, glyph_y_pos(data, loc), glyph_spec_flags(data, loc), 0, 2, 5).unwrap().0
}

/// The offset just past the whole simple glyph record.
pub open spec fn glyph_end_pos(data: Seq<u8>, loc: int) -> int {
    spec_coords(data, glyph_y_pos(data, loc), glyph_spec_flags(data, loc), 0, 2, 5).unwrap().1
}

/// Whether every read of the simple glyph record at `loc` lies within the
/// buffer: the count, the contour-end indices, the instruction count, the
/// flag bytes and both coordinate runs.
pub open spec fn glyph_simple_ok(data: Seq<u8>, loc: int) -> bool {
    let n = glyph_raw_contour_count(data, loc);
    &&& loc + 2 <= data.len()
    &&& !glyph_is_compound(data, loc)
    &&& (n == 0 || loc + 10 + 2 * n <= data.len())
    &&& glyph_instr_pos(data, loc) + 2 <= data.len()
    &&& spec_flags(data, glyph_flags_pos(data, loc), glyph_n_points(data, loc)) is Some
    &&& spec_coords(data, glyph_x_pos(data, loc), glyph_spec_flags(data, loc), 0, 1, 4) is Some
    &&& spec_coords(data, glyph_y_pos(data, loc), glyph_spec_flags(data, loc), 0, 2, 5) is Some
}

/// Whether the record at `loc` decodes at all: either as a compound
/// placeholder or as a fully readable simple glyph.
pub open spec fn glyph_parse_ok(data: Seq<u8>, loc: int) -> bool {
    &&& loc + 2 <= data.len()
    &&& (glyph_is_compound(data, loc) || glyph_simple_ok(data, loc))
}

/// Whether `rec` is the decoding of the record at `loc`: the compound
/// placeholder for the sentinel count, else a simple glyph holding the
/// record's contour-end indices and its decoded points, each point paired
/// with its on-curve marker.
pub open spec fn record_matches(data: Seq<u8>, loc: int, rec: GlyphRecord) -> bool {
    if glyph_is_compound(data, loc) {
        rec is Compound
    } else {
        match rec {
            GlyphRecord::Simple(g) => {
                &&& g.contour_end_pts@ == glyph_spec_ends(data, loc)
                &&& g.coordinates@.len() == glyph_n_points(data, loc)
                &&& forall|j: int|
                    0 <= j < glyph_n_points(data, loc) ==> {
                        &&& (#[trigger] g.coordinates@[j]).0.x == glyph_spec_xs(data, loc)[j]
                        &&& g.coordinates@[j].0.y == glyph_spec_ys(data, loc)[j]
                        &&& g.coordinates@[j].1 == spec_bit(glyph_spec_flags(data, loc)[j], 0)
                    }
                &&& forall|j: int|
                    0 <= j < glyph_n_points(data, loc) ==> -0x8000_0000 <= (
                    #[trigger] g.coordinates@[j]).0.x <= 0x8000_0000 && -0x8000_0000
                        <= g.coordinates@[j].0.y <= 0x8000_0000
            },
            GlyphRecord::Compound => false,
        }
    }
}

/// `p` clamped to the largest cursor offset.  Skipping instruction bytes
/// saturates the cursor there in the degenerate case where the skip would
/// pass the end of the address space.
pub open spec fn sat_pos(p: int) -> int {
    if p <= u64::MAX {
        p
    } else {
        u64::MAX as int
    }
}

/// Decodes the glyph record at absolute offset `loc`.
///
/// A stored contour count of `0xFFFF` classifies the record as compound;
/// the cursor then stands directly after the count and nothing further is
/// read at this offset.  Any other count is taken as the unsigned contour
/// count; the bounding box is skipped, the contour-end indices, the
/// instruction length, the flags and both coordinate axes are read, and
/// the cursor ends just past the record.  A record running past the end
/// of the buffer yields `UnexpectedEndOfData`.
pub fn decode_glyph(reader: &mut FontReader, loc: u64) -> (r: Result<GlyphRecord, FontError>)
    ensures
        final(reader).bytes() == old(reader).bytes(),
        ({
            let data = old(reader).bytes();
            let l = loc as int;
            if l + 2 > data.len() {
                r matches Err(e) && e == FontError::UnexpectedEndOfData
            } else if glyph_is_compound(data, l) {
                &&& r matches Ok(rec) && record_matches(data, l, rec)
                &&& final(reader).position() == l + 2
            } else if glyph_simple_ok(data, l) {
                &&& r matches Ok(rec) && record_matches(data, l, rec)
                &&& final(reader).position() == sat_pos(glyph_end_pos(data, l))
            } else {
                r matches Err(e) && e == FontError::UnexpectedEndOfData
            }
        }),
{
    let ghost data = reader.bytes();
    let ghost l = loc as int;
    proof {
        reader.buffer_in_bounds();
    }
    reader.go_to(loc);
    let count = match reader.read_u16() {
        Ok(v) => v,
        Err(e) => {
            return Err(e);
        },
    };
    if count == 0xFFFF {
        return Ok(GlyphRecord::Compound);
    }
    let n = count as usize;
    reader.skip_bytes(8);
    let mut contour_end_pts: Vec<u16> = Vec::new();
    let mut i: usize = 0;
    while i < n
        invariant
            reader.bytes() == data,
            i <= n,
            contour_end_pts@.len() == i,
            reader.position() == sat_pos(l + 10 + 2 * i),
            i == 0 || l + 10 + 2 * i <= data.len(),
            forall|j: int|
                0 <= j < i ==> #[trigger] contour_end_pts@[j] == glyph_spec_ends(data, l)[j],
        decreases n - i,
    {
        let e = match reader.read_u16() {
            Ok(v) => v,
            Err(e) => {
                proof {
                    // a failed read at the (possibly saturated) entry
                    // position means the entry lies past the buffer
                    assert(l + 10 + 2 * i + 2 > data.len());
                }
                return Err(e);
            },
        };
        proof {
            // the read succeeded, so the position was not saturated
            assert(sat_pos(l + 10 + 2 * i) == l + 10 + 2 * i);
        }
        contour_end_pts.push(e);
        i = i + 1;
    }
    assert(contour_end_pts@ =~= glyph_spec_ends(data, l));
    let instructions_length = match reader.read_u16() {
        Ok(v) => v,
        Err(e) => {
            proof {
                assert(glyph_instr_pos(data, l) + 2 > data.len());
            }
            return Err(e);
        },
    };
    proof {
        assert(sat_pos(l + 10 + 2 * n) == l + 10 + 2 * n);
    }
    reader.skip_bytes(instructions_length as u64);
    assert(reader.position() == sat_pos(glyph_flags_pos(data, l)));

    let n_points: usize = if contour_end_pts.len() == 0 {
        0
    } else {
        contour_end_pts[contour_end_pts.len() - 1] as usize + 1
    };
    assert(n_points == glyph_n_points(data, l));
    let ghost fp = glyph_flags_pos(data, l);

    let flags = match decode_flags(reader, n_points) {
        Ok(v) => v,
        Err(e) => {
            proof {
                if fp > u64::MAX {
                    assert(n_points > 0);
                    assert(spec_flags(data, fp, n_points as int) is None);
                }
            }
            return Err(e);
        },
    };
    proof {
        if fp > u64::MAX {
            // a saturated skip with points still to decode cannot succeed,
            // so nothing was read and the record is an empty glyph
            assert(spec_flags(data, u64::MAX as int, n_points as int) matches Some(p) && p.0
                == flags@);
            assert(n_points == 0);
            assert(spec_flags(data, fp, 0) == Some((Seq::<u8>::empty(), fp)));
            assert(flags@ =~= glyph_spec_flags(data, l));
        } else {
            assert(flags@ == glyph_spec_flags(data, l));
            assert(reader.position() == glyph_x_pos(data, l));
        }
    }
    let coordinates = match get_coordinates(reader, &flags) {
        Ok(v) => v,
        Err(e) => {
            proof {
                if fp > u64::MAX {
                    // with no points both axes decode trivially, so the
                    // coordinate stage cannot have failed
                    assert(flags@.len() == 0);
                    assert(false);
                }
            }
            return Err(e);
        },
    };
    proof {
        if fp > u64::MAX {
            assert(flags@.len() == 0);
            assert(glyph_spec_xs(data, l) =~= Seq::<int>::empty());
            assert(glyph_spec_ys(data, l) =~= Seq::<int>::empty());
            assert(glyph_end_pos(data, l) == fp);
        }
    }
    Ok(GlyphRecord::Simple(Glyph { coordinates, contour_end_pts }))
}

/// Whether every record of the location table decodes.
pub open spec fn glyphs_success(data: Seq<u8>, locs: Seq<u64>) -> bool {
    forall|i: int| 0 <= i < locs.len() ==> glyph_parse_ok(data, #[trigger] locs[i] as int)
}

/// Whether `gs` is the decoding of the location table's records, one per
/// glyph index, in order.
pub open spec fn glyphs_match(data: Seq<u8>, locs: Seq<u64>, gs: Seq<GlyphRecord>) -> bool {
    &&& gs.len() == locs.len()
    &&& forall|i: int|
        0 <= i < locs.len() ==> record_matches(data, locs[i] as int, #[trigger] gs[i])
}

/// A flag byte with bit 3 set, followed by a repeat count, yields the
/// same flag for the repeat count's worth of further points beyond the
/// first — truncated when fewer points remain to be decoded.
pub proof fn lemma_flag_repeat(data: Seq<u8>, pos: int, n: int)
    requires
        0 <= pos,
        pos + 2 <= data.len(),
        spec_bit(data[pos], 3),
        n >= 1,
    ensures
        ({
            let k = if 1 + data[pos + 1] <= n {
                1 + data[pos + 1] as int
            } else {
                n
            };
            match spec_flags(data, pos, n) {
                Some(p) => forall|j: int| 0 <= j < k ==> p.0[j] == data[pos],
                None => true,
            }
        }),
{
}

/// Decodes one glyph record per entry of the location table, in index
/// order.  A record that cannot be read stops the decode and names the
/// offending glyph index alongside the end-of-data condition.
pub fn decode_glyphs(reader: &mut FontReader, glyph_locations: &Vec<u64>) -> (r: Result<
    Vec<GlyphRecord>,
    GlyphDecodeError,
>)
    ensures
        final(reader).bytes() == old(reader).bytes(),
        ({
            let data = old(reader).bytes();
            match r {
                Ok(gs) => glyphs_success(data, glyph_locations@) && glyphs_match(
                    data,
                    glyph_locations@,
                    gs@,
                ),
                Err(e) => {
                    &&& e.cause == FontError::UnexpectedEndOfData
                    &&& e.glyph_index < glyph_locations@.len()
                    &&& !glyph_parse_ok(data, glyph_locations@[e.glyph_index as int] as int)
                    &&& forall|j: int|
                        0 <= j < e.glyph_index ==> glyph_parse_ok(
                            data,
                            #[trigger] glyph_locations@[j] as int,
                        )
                },
            }
        }),
{
    let ghost data = reader.bytes();
    let mut glyphs: Vec<GlyphRecord> = Vec::new();
    let mut i: usize = 0;
    while i < glyph_locations.len()
        invariant
            reader.bytes() == data,
            i <= glyph_locations@.len(),
            glyphs@.len() == i,
            forall|j: int|
                0 <= j < i ==> glyph_parse_ok(data, #[trigger] glyph_locations@[j] as int),
            forall|j: int|
                0 <= j < i ==> record_matches(
                    data,
                    glyph_locations@[j] as int,
                    #[trigger] glyphs@[j],
                ),
        decreases glyph_locations@.len() - i,
    {
        let loc = glyph_locations[i];
        let rec = match decode_glyph(reader, loc) {
            Ok(v) => v,
            Err(e) => {
                return Err(GlyphDecodeError { glyph_index: i, cause: e });
            },
        };
        glyphs.push(rec);
        i = i + 1;
    }
    Ok(glyphs)
}

} // verus!
