//! Directory records of an ISO 9660 image, for copying its `/EFI` tree.
//! Reading the directory extents and writing files is the caller's part.

use vstd::prelude::*;
use crate::bytes::{le32_at, read_le32, copy_range};
use crate::text::{lossy_string, utf8_lossy, before_semicolon, before_char, ascii_uppercase, ascii_upper, str_eq};

verus! {

/// A directory record: extent, data length, flags and raw file identifier.
pub struct IsoRecord {
    pub lba: u32,
    pub size: u32,
    pub flags: u8,
    pub name: Vec<u8>,
}

/// Whether the record of length `rlen` at `i` holds its identifier: at least
/// 33 bytes, and the identifier (length at byte 32, from byte 33) inside.
pub open spec fn record_ok(data: Seq<u8>, i: int, rlen: int) -> bool {
    rlen >= 33 && 33 + data[i + 32] <= rlen
}

/// The records of a directory extent from offset `i` on, as (extent, length,
/// flags, identifier), and whether the walk stopped at a record too short for
/// its identifier. A zero length byte is skipped; a record running past the
/// end ends the walk.
pub open spec fn iso_walk(data: Seq<u8>, i: int) -> (Seq<(u32, u32, u8, Seq<u8>)>, bool)
    decreases data.len() - i,
{
    if i < 0 || i >= data.len() {
        (Seq::empty(), false)
    } else if data[i] == 0 {
        iso_walk(data, i + 1)
    } else if i + data[i] > data.len() {
        (Seq::empty(), false)
    } else if !record_ok(data, i, data[i] as int) {
        (Seq::empty(), true)
    } else {
        let rest = iso_walk(data, i + data[i]);
        (
            seq![
                (
                    le32_at(data, i + 2) as u32,
                    le32_at(data, i + 10) as u32,
                    data[i + 25],
                    data.subrange(i + 33, i + 33 + data[i + 32]),
                ),
            ] + rest.0,
            rest.1,
        )
    }
}

pub open spec fn record_view(r: IsoRecord) -> (u32, u32, u8, Seq<u8>) {
    (r.lba, r.size, r.flags, r.name@)
}

pub open spec fn records_view(rs: Seq<IsoRecord>) -> Seq<(u32, u32, u8, Seq<u8>)> {
    Seq::new(rs.len(), |i: int| record_view(rs[i]))
}

/// The walk over a directory extent.
pub struct IsoWalk {
    pub records: Vec<IsoRecord>,
    /// The walk stopped at a record too short for its identifier.
    pub malformed: bool,
}

/// Walks the records of a directory extent (see `iso_walk`).
pub fn iso_dir_walk(data: &[u8]) -> (w: IsoWalk)
    ensures
        (records_view(w.records@), w.malformed) == iso_walk(data@, 0),
{
    let mut out: Vec<IsoRecord> = Vec::new();
    let mut i: usize = 0;
    let n = data.len();
    let mut malformed = false;
    while i < n
        invariant_except_break
            !malformed,
        invariant
            n == data@.len(),
            i <= n,
            (records_view(out@) + iso_walk(data@, i as int).0, iso_walk(data@, i as int).1)
                == iso_walk(data@, 0) || (malformed && (records_view(out@), true) == iso_walk(
                data@,
                0,
            )),
        ensures
            (records_view(out@), malformed) == iso_walk(data@, 0),
        decreases n - i,
    {
        let rlen = data[i] as usize;
        if rlen == 0 {
            i = i + 1;
            continue;
        }
        if rlen > n - i {
            assert(records_view(out@) =~= records_view(out@) + Seq::<(u32, u32, u8, Seq<u8>)>::empty());
            break;
        }
        if rlen < 33 || 33 + data[i + 32] as usize > rlen {
            malformed = true;
            assert(records_view(out@) =~= records_view(out@) + Seq::<(u32, u32, u8, Seq<u8>)>::empty());
            break;
        }
        let ghost before = records_view(out@);
        let lba = read_le32(data, i + 2);
        let size = read_le32(data, i + 10);
        let flags = data[i + 25];
        let name_len = data[i + 32] as usize;
        let name = copy_range(data, i + 33, i + 33 + name_len);
        let ghost item = (lba, size, flags, name@);
        out.push(IsoRecord { lba, size, flags, name });
        proof {
            assert(records_view(out@) =~= before.push(item));
            let rest = iso_walk(data@, i + rlen);
            assert(before.push(item) + rest.0 =~= before + (seq![item] + rest.0));
        }
        i = i + rlen;
    }
    if i >= n && !malformed {
        assert(records_view(out@) + iso_walk(data@, i as int).0 =~= records_view(out@));
    }
    IsoWalk { records: out, malformed }
}

/// The name a record is copied under: its identifier as text (invalid
/// UTF-8 replaced) up to any `;version` suffix.
pub open spec fn record_name_spec(raw: Seq<u8>) -> Seq<char> {
    before_char(utf8_lossy(raw), ';')
}

/// The name a record is copied under (see `record_name_spec`).
pub fn record_name(raw: &[u8]) -> (r: String)
    ensures
        r@ == record_name_spec(raw@),
{
    let s = lossy_string(raw);
    before_semicolon(s.as_str()).to_owned()
}

pub open spec fn upper(s: Seq<char>) -> Seq<char> {
    Seq::new(s.len(), |i: int| ascii_upper(s[i]))
}

/// The name a record is looked up by: its text uppercased (ASCII letters),
/// up to any `;version` suffix.
pub open spec fn lookup_name(raw: Seq<u8>) -> Seq<char> {
    before_char(upper(utf8_lossy(raw)), ';')
}

/// The first of `records` whose lookup name is `target` uppercased.
pub open spec fn find_from(records: Seq<(u32, u32, u8, Seq<u8>)>, target: Seq<char>, i: int) -> Option<int>
    decreases records.len() - i,
{
    if i < 0 || i >= records.len() {
        None
    } else if lookup_name(records[i].3) == upper(target) {
        Some(i)
    } else {
        find_from(records, target, i + 1)
    }
}

/// A child lookup that ran into a record too short for its identifier.
#[derive(Clone, Copy, Debug, PartialEq, Eq, Structural)]
pub enum IsoError {
    Malformed,
}

/// The child of a directory named `target` (compared uppercased, without
/// `;version`): its index among the walked records. Running out of records
/// at a malformed one, before a match, is an error.
pub fn find_child(w: &IsoWalk, target: &str) -> (r: Result<Option<usize>, IsoError>)
    ensures
        find_from(records_view(w.records@), target@, 0) matches Some(i) ==> r == Ok::<
            Option<usize>,
            IsoError,
        >(Some(i as usize)),
        find_from(records_view(w.records@), target@, 0) is None ==> r == (if w.malformed {
            Err::<Option<usize>, IsoError>(IsoError::Malformed)
        } else {
            Ok(None)
        }),
{
    let want = ascii_uppercase(target);
    let mut i: usize = 0;
    while i < w.records.len()
        invariant
            i <= w.records@.len(),
            want@ == upper(target@),
            find_from(records_view(w.records@), target@, 0) == find_from(
                records_view(w.records@),
                target@,
                i as int,
            ),
        decreases w.records@.len() - i,
    {
        let name = lossy_string(w.records[i].name.as_slice());
        let up = ascii_uppercase(name.as_str());
        let bare = before_semicolon(up.as_str());
        assert(up@ =~= upper(name@));
        if str_eq(bare, want.as_str()) {
            assert(record_view(w.records@[i as int]).3 == w.records@[i as int].name@);
            return Ok(Some(i));
        }
        i = i + 1;
    }
    if w.malformed {
        Err(IsoError::Malformed)
    } else {
        Ok(None)
    }
}

/// What copying does with a record: the one-byte identifiers 0 and 1 (the
/// directory itself and its parent) and empty names are skipped; flag bit 2
/// marks a directory.
#[derive(Clone, Copy, Debug, PartialEq, Eq, Structural)]
pub enum RecordAction {
    Skip,
    Dir,
    File,
}

pub open spec fn record_action_spec(flags: u8, raw: Seq<u8>) -> RecordAction {
    if raw.len() == 1 && (raw[0] == 0 || raw[0] == 1) {
        RecordAction::Skip
    } else if record_name_spec(raw).len() == 0 {
        RecordAction::Skip
    } else if flags & 2 != 0 {
        RecordAction::Dir
    } else {
        RecordAction::File
    }
}

/// What copying does with a record (see `record_action_spec`).
pub fn record_action(r: &IsoRecord) -> (a: RecordAction)
    ensures
        a == record_action_spec(r.flags, r.name@),
{
    if r.name.len() == 1 && (r.name[0] == 0 || r.name[0] == 1) {
        return RecordAction::Skip;
    }
    let name = record_name(r.name.as_slice());
    if name.as_str().is_empty() {
        RecordAction::Skip
    } else if r.flags & 2 != 0 {
        RecordAction::Dir
    } else {
        RecordAction::File
    }
}

/// `CD001`, the standard identifier of a volume descriptor.
pub open spec fn cd001() -> Seq<u8> {
    seq![67u8, 68, 48, 48, 49]
}

/// The root directory of a primary volume descriptor, as (extent, length):
/// from the root directory record at byte 156, when the descriptor carries
/// the standard identifier.
pub open spec fn pvd_root_spec(pvd: Seq<u8>) -> Option<(u32, u32)> {
    if pvd.subrange(1, 6) == cd001() {
        Some((le32_at(pvd, 158) as u32, le32_at(pvd, 166) as u32))
    } else {
        None
    }
}

/// The root directory of a primary volume descriptor (see `pvd_root_spec`).
pub fn pvd_root(pvd: &[u8]) -> (r: Option<(u32, u32)>)
    requires
        pvd@.len() >= 2048,
    ensures
        r == pvd_root_spec(pvd@),
{
    if pvd[1] == 67 && pvd[2] == 68 && pvd[3] == 48 && pvd[4] == 48 && pvd[5] == 49 {
        assert(pvd@.subrange(1, 6) =~= cd001());
        Some((read_le32(pvd, 158), read_le32(pvd, 166)))
    } else {
        assert(pvd@.subrange(1, 6) != cd001()) by {
            if pvd@.subrange(1, 6) == cd001() {
                assert(pvd@.subrange(1, 6)[0] == pvd@[1]);
                assert(pvd@.subrange(1, 6)[1] == pvd@[2]);
                assert(pvd@.subrange(1, 6)[2] == pvd@[3]);
                assert(pvd@.subrange(1, 6)[3] == pvd@[4]);
                assert(pvd@.subrange(1, 6)[4] == pvd@[5]);
            }
        }
        None
    }
}

} // verus!
