//! The table directory resolver: reads the font header and the table
//! directory records, producing a mapping from 4-byte table tag to the
//! table's absolute byte offset within the font buffer.
//!
//! Tags are not assumed unique in the input; a later duplicate overwrites
//! an earlier one (last wins).

use vstd::prelude::*;
use crate::FontError;
use crate::font_reader::{FontReader, be16_at, be32_at};

verus! {

/// The last-wins lookup over a sequence of tag/offset records: the offset
/// paired with the latest occurrence of `tag`, if any.
pub open spec fn spec_lookup(entries: Seq<(u32, u32)>, tag: u32) -> Option<u32>
    decreases entries.len(),
{
    if entries.len() == 0 {
        None
    } else if entries.last().0 == tag {
        Some(entries.last().1)
    } else {
        spec_lookup(entries.drop_last(), tag)
    }
}

/// The number of table records the directory header declares.
pub open spec fn spec_num_tables(data: Seq<u8>) -> int {
    be16_at(data, 4)
}

/// The tag of directory record `i`, packed big-endian.
pub open spec fn spec_dir_tag(data: Seq<u8>, i: int) -> int {
    be32_at(data, 12 + 16 * i)
}

/// The table offset of directory record `i`.
pub open spec fn spec_dir_offset(data: Seq<u8>, i: int) -> int {
    be32_at(data, 12 + 16 * i + 8)
}

/// Whether the whole table directory lies within the buffer: the header's
/// table count is readable, and so are all the records it declares.
pub open spec fn dir_parse_ok(data: Seq<u8>) -> bool {
    &&& 6 <= data.len()
    &&& (spec_num_tables(data) == 0 || 12 + 16 * spec_num_tables(data) <= data.len())
}

/// The record sequence the directory holds, in file order.
pub open spec fn spec_dir_entries(data: Seq<u8>) -> Seq<(u32, u32)> {
    Seq::new(
        spec_num_tables(data) as nat,
        |i: int| (spec_dir_tag(data, i) as u32, spec_dir_offset(data, i) as u32),
    )
}

/// The table directory: a tag-to-offset mapping with last-wins lookup.
pub struct TableDirectory {
    entries: Vec<(u32, u32)>,
}

impl TableDirectory {
    /// The tag/offset records, in the order they stood in the file.
    pub closed spec fn entries(&self) -> Seq<(u32, u32)> {
        self.entries@
    }

    /// An empty directory, before any table is read.
    pub fn new() -> (r: TableDirectory)
        ensures
            r.entries() == Seq::<(u32, u32)>::empty(),
    {
        TableDirectory { entries: Vec::new() }
    }

    /// The absolute byte offset recorded for `tag`, if the directory holds
    /// one; of duplicate tags the last wins.
    pub fn lookup(&self, tag: u32) -> (r: Option<u32>)
        ensures
            r == spec_lookup(self.entries(), tag),
    {
        let n = self.entries.len();
        assert(self.entries@.take(n as int) =~= self.entries@);
        let mut i: usize = n;
        while i > 0
            invariant
                i <= n,
                n == self.entries@.len(),
                spec_lookup(self.entries@.take(i as int), tag) == spec_lookup(self.entries@, tag),
            decreases i,
        {
            i = i - 1;
            let (t, off) = self.entries[i];
            assert(self.entries@.take(i as int + 1).drop_last() =~= self.entries@.take(i as int));
            if t == tag {
                return Some(off);
            }
        }
        assert(self.entries@.take(0) =~= Seq::<(u32, u32)>::empty());
        None
    }

    /// The number of records the directory holds.
    pub fn len(&self) -> (r: usize)
        ensures
            r == self.entries().len(),
    {
        self.entries.len()
    }
}

/// What reading the table directory yields: the record sequence when the
/// whole directory lies within the buffer, the end-of-data condition
/// otherwise.
pub open spec fn directory_post(data: Seq<u8>, r: Result<TableDirectory, FontError>) -> bool {
    if dir_parse_ok(data) {
        r matches Ok(d) && d.entries() == spec_dir_entries(data)
    } else {
        r matches Err(e) && e == FontError::UnexpectedEndOfData
    }
}

/// Reads the table directory from a cursor positioned at the start of the
/// file: skips the 4-byte scaler tag, reads the 16-bit table count, skips
/// the three binary-search hint fields, then reads one 16-byte record per
/// table (tag, checksum, offset, length; checksum and length discarded).
///
/// On success the cursor stands exactly `12 + 16 * n_tables` bytes in, and
/// the directory holds every record in file order.  A directory that runs
/// past the end of the buffer yields `UnexpectedEndOfData`.
pub fn get_lookup_table(reader: &mut FontReader) -> (r: Result<TableDirectory, FontError>)
    requires
        old(reader).position() == 0,
    ensures
        final(reader).bytes() == old(reader).bytes(),
        directory_post(old(reader).bytes(), r),
        dir_parse_ok(old(reader).bytes()) ==> final(reader).position() == 12 + 16
            * spec_num_tables(old(reader).bytes()),
{
    let ghost data = reader.bytes();
    reader.skip_bytes(4);
    let n_tables = match reader.read_u16() {
        Ok(v) => v,
        Err(e) => {
            return Err(e);
        },
    };
    reader.skip_bytes(6);
    let mut entries: Vec<(u32, u32)> = Vec::new();
    let mut i: usize = 0;
    while i < n_tables as usize
        invariant
            reader.bytes() == data,
            i <= n_tables,
            n_tables == spec_num_tables(data),
            reader.position() == 12 + 16 * i,
            i == 0 || 12 + 16 * i <= data.len(),
            entries@.len() == i,
            forall|j: int| 0 <= j < i ==> entries@[j] == #[trigger] spec_dir_entries(data)[j],
        decreases n_tables - i,
    {
        let tag = match reader.read_tag() {
            Ok(v) => v,
            Err(e) => {
                return Err(e);
            },
        };
        let _checksum = match reader.read_u32() {
            Ok(v) => v,
            Err(e) => {
                return Err(e);
            },
        };
        let offset = match reader.read_u32() {
            Ok(v) => v,
            Err(e) => {
                return Err(e);
            },
        };
        let _length = match reader.read_u32() {
            Ok(v) => v,
            Err(e) => {
                return Err(e);
            },
        };
        entries.push((tag, offset));
        i = i + 1;
    }
    assert(entries@ =~= spec_dir_entries(data));
    Ok(TableDirectory { entries })
}

} // verus!
