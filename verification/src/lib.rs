//! A verified decoder for the binary structure of TrueType font files.
//!
//! The crate walks a font file's table directory, resolves the `loca`,
//! `glyf`, `cmap`, `head` and `maxp` tables, decodes each glyph's contour
//! and point data (including the packed flag run-length encoding and the
//! delta-coded coordinates), decodes the `cmap` subtable (formats 4 and 12)
//! into a code-point to glyph-index mapping, and reconstructs glyph outlines
//! by inserting implied curve points and flattening quadratic segments.
//!
//! All parsing works over an in-memory byte buffer through a big-endian
//! byte cursor; reading the file from disk is the caller's concern.
#![verifier::loop_isolation(false)]

pub mod font_reader;
pub mod directory;
pub mod location;
pub mod glyph;
pub mod cmap;
pub mod outline;
pub mod parser;

use vstd::prelude::*;

verus! {

/// Table tag `loca`, packed big-endian.
pub const TAG_LOCA: u32 = 0x6C6F_6361;
/// Table tag `glyf`, packed big-endian.
pub const TAG_GLYF: u32 = 0x676C_7966;
/// Table tag `cmap`, packed big-endian.
pub const TAG_CMAP: u32 = 0x636D_6170;
/// Table tag `head`, packed big-endian.
pub const TAG_HEAD: u32 = 0x6865_6164;
/// Table tag `maxp`, packed big-endian.
pub const TAG_MAXP: u32 = 0x6D61_7870;

/// The fatal conditions a parse can end in.  Any one of them makes the
/// current font unusable; no partial result is kept.
#[derive(Clone, Copy, PartialEq, Eq, Structural, Debug)]
pub enum FontError {
    /// A read ran past the end of the font buffer: the file is truncated
    /// or corrupt.
    UnexpectedEndOfData,
    /// The table directory lacks a table the parser depends on; the
    /// payload is the missing table's tag, packed big-endian.
    MissingRequiredTable(u32),
    /// No Unicode-capable `cmap` subtable was found.
    UnsupportedCharacterMap,
    /// The chosen `cmap` subtable has a format other than 4 or 12; the
    /// payload is the format selector that was read.
    UnsupportedCharacterMapFormat(u16),
}

} // verus!
