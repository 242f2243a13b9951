//! virtio-9p: the protocol side of a 9P2000.L server for the shared folder.
//!
//! Each request is decoded against the table of fids (handles the guest
//! holds); the table is updated, and the request is either answered at once
//! or turned into one file-system operation on a path below the shared root.
//! The caller performs that operation and builds the reply from its outcome
//! with the `reply_*` functions here. A path is the sequence of names walked
//! from the root.

use vstd::prelude::*;
use std::collections::HashMap;
use crate::bytes::{le16_at, le32_at, le64_at, read_le64, copy_range, le16_bytes, le32_bytes, le64_bytes, push_u16_le, push_u32_le, push_u64_le, push_slice, read_le16, read_le32};
use crate::text::utf8_str;
use vstd::utf8::{valid_utf8, decode_utf8, encode_utf8};
use vstd::string::StringSliceAdditionalSpecFns;

verus! {

broadcast use vstd::std_specs::hash::group_hash_axioms;

/// A fid: the path it names and whether it was opened.
pub struct P9Fid {
    pub path: Vec<String>,
    pub open: bool,
}

pub ghost struct FidView {
    pub path: Seq<Seq<char>>,
    pub open: bool,
}

impl View for P9Fid {
    type V = FidView;

    open spec fn view(&self) -> FidView {
        FidView { path: seq_names(self.path@), open: self.open }
    }
}

/// What the file system says of a path for its qid.
#[derive(Clone, Copy, Debug)]
pub struct QidInfo {
    pub is_dir: bool,
    pub path_hash: u64,
}

/// What the file system says of a path for its stat.
pub struct StatInfo {
    /// The last component of the path (empty for none).
    pub name: String,
    /// The length of a regular file, else 0.
    pub size: u64,
    pub is_dir: bool,
    pub qid: QidInfo,
}

/// A decoded request: answered at once, or the file-system operation it needs.
pub enum P9Op {
    Reply(Vec<u8>),
    /// Reply with the qid of `path`.
    Attach { tag: u16, path: Vec<String> },
    /// Reply with the qids of `paths`, in order.
    Walk { tag: u16, paths: Vec<Vec<String>> },
    /// Reply with the qid of `path`.
    Open { tag: u16, path: Vec<String> },
    /// Read a directory listing or file contents.
    Read { tag: u16, path: Vec<String>, offset: u64, count: u32 },
    /// Write `data` at `offset`, creating the file if needed.
    Write { tag: u16, path: Vec<String>, offset: u64, data: Vec<u8> },
    /// Reply with the stat of `path`.
    Stat { tag: u16, path: Vec<String> },
    /// Remove the file or directory tree at `path`.
    Remove { tag: u16, path: Vec<String> },
    /// Create the directory `path` (and its parents).
    Mkdir { tag: u16, path: Vec<String> },
}

pub ghost enum P9Action {
    Reply(Seq<u8>),
    Attach { tag: u16, path: Seq<Seq<char>> },
    Walk { tag: u16, paths: Seq<Seq<Seq<char>>> },
    Open { tag: u16, path: Seq<Seq<char>> },
    Read { tag: u16, path: Seq<Seq<char>>, offset: u64, count: u32 },
    Write { tag: u16, path: Seq<Seq<char>>, offset: u64, data: Seq<u8> },
    Stat { tag: u16, path: Seq<Seq<char>> },
    Remove { tag: u16, path: Seq<Seq<char>> },
    Mkdir { tag: u16, path: Seq<Seq<char>> },
}

/// The names of a path as text.
pub open spec fn seq_names(s: Seq<String>) -> Seq<Seq<char>> {
    Seq::new(s.len(), |i: int| s[i]@)
}

pub open spec fn names_view(p: Vec<String>) -> Seq<Seq<char>> {
    seq_names(p@)
}

pub open spec fn paths_view(ps: Seq<Vec<String>>) -> Seq<Seq<Seq<char>>> {
    Seq::new(ps.len(), |i: int| names_view(ps[i]))
}

proof fn lemma_seq_names_push(s: Seq<String>, x: String)
    ensures
        seq_names(s.push(x)) == seq_names(s).push(x@),
{
    assert(seq_names(s.push(x)) =~= seq_names(s).push(x@));
}

proof fn lemma_paths_view_push(s: Seq<Vec<String>>, x: Vec<String>)
    ensures
        paths_view(s.push(x)) == paths_view(s).push(names_view(x)),
{
    assert(paths_view(s.push(x)) =~= paths_view(s).push(names_view(x)));
}

proof fn lemma_walk_paths_push(base: Seq<Seq<char>>, done: Seq<Seq<char>>, n: Seq<char>)
    ensures
        walk_paths(base, done.push(n)) == walk_paths(base, done).push(base + done.push(n)),
{
    assert forall|i: int| 0 <= i < done.len() implies #[trigger] done.push(n).subrange(0, i + 1)
        == done.subrange(0, i + 1) by {
        assert(done.push(n).subrange(0, i + 1) =~= done.subrange(0, i + 1));
    }
    assert(done.push(n).subrange(0, done.len() + 1 as int) =~= done.push(n));
    assert(walk_paths(base, done.push(n)) =~= walk_paths(base, done).push(base + done.push(n)));
}

impl View for P9Op {
    type V = P9Action;

    open spec fn view(&self) -> P9Action {
        match self {
            P9Op::Reply(r) => P9Action::Reply(r@),
            P9Op::Attach { tag, path } => P9Action::Attach { tag: *tag, path: names_view(*path) },
            P9Op::Walk { tag, paths } => P9Action::Walk {
                tag: *tag,
                paths: paths_view(paths@),
            },
            P9Op::Open { tag, path } => P9Action::Open { tag: *tag, path: names_view(*path) },
            P9Op::Read { tag, path, offset, count } => P9Action::Read {
                tag: *tag,
                path: names_view(*path),
                offset: *offset,
                count: *count,
            },
            P9Op::Write { tag, path, offset, data } => P9Action::Write {
                tag: *tag,
                path: names_view(*path),
                offset: *offset,
                data: data@,
            },
            P9Op::Stat { tag, path } => P9Action::Stat { tag: *tag, path: names_view(*path) },
            P9Op::Remove { tag, path } => P9Action::Remove { tag: *tag, path: names_view(*path) },
            P9Op::Mkdir { tag, path } => P9Action::Mkdir { tag: *tag, path: names_view(*path) },
        }
    }
}

/// The header of a reply: total size (u32 LE, modulo 2^32), type, tag.
pub open spec fn reply_header_spec(msg_type: u8, tag: u16, body_len: int) -> Seq<u8> {
    le32_bytes((7 + body_len) % 0x1_0000_0000) + seq![msg_type] + le16_bytes(tag as int)
}

/// Every reply is framed the same way: its first four bytes give its whole
/// length (little-endian), the fifth its message type, the next two its tag.
pub proof fn lemma_reply_framing(msg_type: u8, tag: u16, body: Seq<u8>)
    requires
        body.len() + 7 < 0x1_0000_0000,
    ensures
        ({
            let r = reply_header_spec(msg_type, tag, body.len() as int) + body;
            &&& r.len() == 7 + body.len()
            &&& le32_at(r, 0) == r.len()
            &&& r[4] == msg_type
            &&& le16_at(r, 5) == tag
        }),
{
    let n: int = 7 + body.len() as int;
    let r = reply_header_spec(msg_type, tag, body.len() as int) + body;
    assert(n % 0x1_0000_0000 == n);
    let lo = n % 65536;
    let hi = n / 65536;
    assert(0 <= lo < 65536);
    assert(0 <= hi < 65536);
    assert(r[0] == (lo % 256) as u8);
    assert(r[1] == (lo / 256) as u8);
    assert(r[2] == (hi % 256) as u8);
    assert(r[3] == (hi / 256) as u8);
    assert(r[0] as int + r[1] as int * 256 == lo);
    assert(r[2] as int + r[3] as int * 256 == hi);
    assert(lo + hi * 65536 == n);
    assert(r[5] == ((tag as int) % 256) as u8);
    assert(r[6] == ((tag as int) / 256) as u8);
}

/// A string on the wire: its byte length (u16 LE, modulo 2^16), its bytes.
pub open spec fn wire_str(bytes: Seq<u8>) -> Seq<u8> {
    le16_bytes((bytes.len() % 65536) as int) + bytes
}

/// Rlerror carrying `msg`.
pub open spec fn error_reply(tag: u16, msg: Seq<char>) -> Seq<u8> {
    reply_header_spec(107, tag, 2 + encode_utf8(msg).len() as int) + wire_str(encode_utf8(msg))
}

/// `9P2000.L` in ASCII.
pub open spec fn version_string() -> Seq<u8> {
    seq![57u8, 80, 50, 48, 48, 48, 46, 76]
}

/// Rversion: a maximum message size of 64 KiB and protocol `9P2000.L`.
pub open spec fn version_reply(tag: u16) -> Seq<u8> {
    reply_header_spec(101, tag, 14) + le32_bytes(65536) + le16_bytes(8) + version_string()
}

/// A qid: type (0x80 for a directory), version 0, path hash.
pub open spec fn qid_bytes(q: QidInfo) -> Seq<u8> {
    seq![
        if q.is_dir {
            0x80u8
        } else {
            0u8
        },
    ] + le32_bytes(0) + le64_bytes(q.path_hash as int)
}

/// The names of a walk request from offset `off` of its body, at most `n`
/// of them; a truncated name ends the list. Names that are not UTF-8 read `?`.
pub open spec fn walk_names(body: Seq<u8>, off: int, n: int) -> Seq<Seq<char>>
    decreases n,
{
    if n <= 0 || off < 0 || off + 2 > body.len() || off + 2 + le16_at(body, off) > body.len() {
        Seq::empty()
    } else {
        let raw = body.subrange(off + 2, off + 2 + le16_at(body, off));
        let name = if valid_utf8(raw) {
            decode_utf8(raw)
        } else {
            "?"@
        };
        seq![name] + walk_names(body, off + 2 + le16_at(body, off), n - 1)
    }
}

/// The paths a walk visits: `base` extended by each prefix of `names`.
pub open spec fn walk_paths(base: Seq<Seq<char>>, names: Seq<Seq<char>>) -> Seq<Seq<Seq<char>>> {
    Seq::new(names.len(), |i: int| base + names.subrange(0, i + 1))
}

/// The name in a mkdir request: UTF-8, or `?`.
pub open spec fn mkdir_name(body: Seq<u8>) -> Seq<char> {
    let raw = body.subrange(6, 6 + le16_at(body, 4));
    if valid_utf8(raw) {
        decode_utf8(raw)
    } else {
        "?"@
    }
}

/// The fid named by a request body.
pub open spec fn body_fid(body: Seq<u8>) -> u32 {
    le32_at(body, 0) as u32
}

pub open spec fn unknown_fid(tag: u16) -> P9Action {
    P9Action::Reply(error_reply(tag, "unknown fid"@))
}

/// Tattach: the fid now names the root.
pub open spec fn attach_step(fids: Map<u32, FidView>, tag: u16, body: Seq<u8>) -> (Map<u32, FidView>, P9Action) {
    if body.len() < 4 {
        (fids, P9Action::Reply(error_reply(tag, "short attach"@)))
    } else {
        (
            fids.insert(body_fid(body), FidView { path: Seq::empty(), open: false }),
            P9Action::Attach { tag, path: Seq::empty() },
        )
    }
}

/// Twalk: the new fid names the fid's path extended by the walked names;
/// the reply carries the qid of every path on the way.
pub open spec fn walk_step(fids: Map<u32, FidView>, tag: u16, body: Seq<u8>) -> (Map<u32, FidView>, P9Action) {
    if body.len() < 10 {
        (fids, P9Action::Reply(error_reply(tag, "short walk"@)))
    } else if !fids.contains_key(body_fid(body)) {
        (fids, unknown_fid(tag))
    } else {
        let names = walk_names(body, 10, le16_at(body, 8));
        let base = fids[body_fid(body)].path;
        (
            fids.insert(le32_at(body, 4) as u32, FidView { path: base + names, open: false }),
            P9Action::Walk { tag, paths: walk_paths(base, names) },
        )
    }
}

/// A walk continues from the fid it starts at: the new fid names the
/// starting fid's path followed by the walked names, the reply reports, for
/// each walked name, the starting path followed by the names up to and
/// including it, and every other fid keeps what it named.
pub proof fn lemma_walk_continues_from_fid(fids: Map<u32, FidView>, tag: u16, body: Seq<u8>)
    requires
        body.len() >= 10,
        fids.contains_key(body_fid(body)),
    ensures
        ({
            let (after, action) = p9_request(fids, 110, tag, body);
            let start = fids[body_fid(body)].path;
            let newfid = le32_at(body, 4) as u32;
            let names = walk_names(body, 10, le16_at(body, 8));
            &&& after.contains_key(newfid)
            &&& after[newfid].path.len() == start.len() + names.len()
            &&& after[newfid].path.subrange(0, start.len() as int) == start
            &&& after[newfid].path.subrange(start.len() as int, after[newfid].path.len() as int) == names
            &&& !after[newfid].open
            &&& forall|f: u32| f != newfid && fids.contains_key(f) ==> after.contains_key(f) && after[f] == fids[f]
            &&& action matches P9Action::Walk { tag: t, paths } && t == tag && paths.len() == names.len()
                && forall|i: int| 0 <= i < names.len() ==> {
                    &&& (#[trigger] paths[i]).len() == start.len() + i + 1
                    &&& paths[i].subrange(0, start.len() as int) == start
                    &&& paths[i].subrange(start.len() as int, paths[i].len() as int) == names.subrange(0, i + 1)
                }
        }),
{
    let start = fids[body_fid(body)].path;
    let newfid = le32_at(body, 4) as u32;
    let names = walk_names(body, 10, le16_at(body, 8));
    let p = start + names;
    assert(p.subrange(0, start.len() as int) =~= start);
    assert(p.subrange(start.len() as int, p.len() as int) =~= names);
    let paths = walk_paths(start, names);
    assert forall|i: int| 0 <= i < names.len() implies {
        &&& (#[trigger] paths[i]).len() == start.len() + i + 1
        &&& paths[i].subrange(0, start.len() as int) == start
        &&& paths[i].subrange(start.len() as int, paths[i].len() as int) == names.subrange(0, i + 1)
    } by {
        let q = start + names.subrange(0, i + 1);
        assert(paths[i] == q);
        assert(q.subrange(0, start.len() as int) =~= start);
        assert(q.subrange(start.len() as int, q.len() as int) =~= names.subrange(0, i + 1));
    }
}

/// Topen: the fid is marked open.
pub open spec fn open_step(fids: Map<u32, FidView>, tag: u16, body: Seq<u8>) -> (Map<u32, FidView>, P9Action) {
    if body.len() < 8 {
        (fids, P9Action::Reply(error_reply(tag, "short open"@)))
    } else if !fids.contains_key(body_fid(body)) {
        (fids, unknown_fid(tag))
    } else {
        let f = fids[body_fid(body)];
        (
            fids.insert(body_fid(body), FidView { path: f.path, open: true }),
            P9Action::Open { tag, path: f.path },
        )
    }
}

/// Tread: offset (u64) at 4, count (u32) at 12.
pub open spec fn read_step(fids: Map<u32, FidView>, tag: u16, body: Seq<u8>) -> (Map<u32, FidView>, P9Action) {
    if body.len() < 16 {
        (fids, P9Action::Reply(error_reply(tag, "short read"@)))
    } else if !fids.contains_key(body_fid(body)) {
        (fids, unknown_fid(tag))
    } else {
        (
            fids,
            P9Action::Read {
                tag,
                path: fids[body_fid(body)].path,
                offset: le64_at(body, 4) as u64,
                count: le32_at(body, 12) as u32,
            },
        )
    }
}

/// Twrite: offset at 4, count at 12, then the data (as much as is there).
pub open spec fn write_step(fids: Map<u32, FidView>, tag: u16, body: Seq<u8>) -> (Map<u32, FidView>, P9Action) {
    if body.len() < 16 {
        (fids, P9Action::Reply(error_reply(tag, "short write"@)))
    } else if !fids.contains_key(body_fid(body)) {
        (fids, unknown_fid(tag))
    } else {
        let n = if le32_at(body, 12) < body.len() - 16 {
            le32_at(body, 12)
        } else {
            body.len() - 16
        };
        (
            fids,
            P9Action::Write {
                tag,
                path: fids[body_fid(body)].path,
                offset: le64_at(body, 4) as u64,
                data: body.subrange(16, 16 + n),
            },
        )
    }
}

/// Tclunk: the fid is forgotten.
pub open spec fn clunk_step(fids: Map<u32, FidView>, tag: u16, body: Seq<u8>) -> (Map<u32, FidView>, P9Action) {
    if body.len() < 4 {
        (fids, P9Action::Reply(error_reply(tag, "short clunk"@)))
    } else {
        (fids.remove(body_fid(body)), P9Action::Reply(reply_header_spec(121, tag, 0)))
    }
}

/// Tstat.
pub open spec fn stat_step(fids: Map<u32, FidView>, tag: u16, body: Seq<u8>) -> (Map<u32, FidView>, P9Action) {
    if body.len() < 4 {
        (fids, P9Action::Reply(error_reply(tag, "short stat"@)))
    } else if !fids.contains_key(body_fid(body)) {
        (fids, unknown_fid(tag))
    } else {
        (fids, P9Action::Stat { tag, path: fids[body_fid(body)].path })
    }
}

/// Tremove: the fid is forgotten and its path removed.
pub open spec fn remove_step(fids: Map<u32, FidView>, tag: u16, body: Seq<u8>) -> (Map<u32, FidView>, P9Action) {
    if body.len() < 4 {
        (fids, P9Action::Reply(error_reply(tag, "short remove"@)))
    } else if !fids.contains_key(body_fid(body)) {
        (fids, unknown_fid(tag))
    } else {
        (fids.remove(body_fid(body)), P9Action::Remove { tag, path: fids[body_fid(body)].path })
    }
}

/// Tmkdir: directory fid at 0, name length at 4, name from 6.
pub open spec fn mkdir_step(fids: Map<u32, FidView>, tag: u16, body: Seq<u8>) -> (Map<u32, FidView>, P9Action) {
    if body.len() < 8 {
        (fids, P9Action::Reply(error_reply(tag, "short mkdir"@)))
    } else if body.len() < 6 + le16_at(body, 4) {
        (fids, P9Action::Reply(error_reply(tag, "short mkdir name"@)))
    } else if !fids.contains_key(body_fid(body)) {
        (fids, unknown_fid(tag))
    } else {
        (fids, P9Action::Mkdir { tag, path: fids[body_fid(body)].path.push(mkdir_name(body)) })
    }
}

/// A request of type `t` with `tag` and `body`.
pub open spec fn p9_request(fids: Map<u32, FidView>, t: u8, tag: u16, body: Seq<u8>) -> (Map<u32, FidView>, P9Action) {
    if t == 100 {
        (fids, P9Action::Reply(version_reply(tag)))
    } else if t == 104 {
        attach_step(fids, tag, body)
    } else if t == 110 {
        walk_step(fids, tag, body)
    } else if t == 112 {
        open_step(fids, tag, body)
    } else if t == 116 {
        read_step(fids, tag, body)
    } else if t == 118 {
        write_step(fids, tag, body)
    } else if t == 120 {
        clunk_step(fids, tag, body)
    } else if t == 124 {
        stat_step(fids, tag, body)
    } else if t == 122 {
        remove_step(fids, tag, body)
    } else if t == 72 {
        mkdir_step(fids, tag, body)
    } else {
        (fids, P9Action::Reply(error_reply(tag, "unknown message"@)))
    }
}

/// Decoding one message against the fid table: the table afterwards and
/// what follows. A message is size (u32), type (u8), tag (u16), body.
pub open spec fn p9_step(fids: Map<u32, FidView>, msg: Seq<u8>) -> (Map<u32, FidView>, P9Action) {
    if msg.len() < 7 {
        (fids, P9Action::Reply(error_reply(0, "short message"@)))
    } else {
        p9_request(fids, msg[4], le16_at(msg, 5) as u16, msg.subrange(7, msg.len() as int))
    }
}

/// The qids of several paths, one after another.
pub open spec fn qids_bytes(qs: Seq<QidInfo>) -> Seq<u8>
    decreases qs.len(),
{
    if qs.len() == 0 {
        Seq::empty()
    } else {
        qids_bytes(qs.drop_last()) + qid_bytes(qs.last())
    }
}

/// The mode a stat reports: a directory with 0755, else a file with 0644.
pub open spec fn stat_mode(is_dir: bool) -> int {
    if is_dir {
        0x8000_01ED
    } else {
        0x1A4
    }
}

/// The stat record of an entry: type, dev, qid, mode, atime, mtime, size,
/// name, and `root` as uid, gid and muid.
pub open spec fn stat_bytes(name: Seq<char>, size: u64, is_dir: bool, qid: QidInfo) -> Seq<u8> {
    le16_bytes(0) + le32_bytes(0) + qid_bytes(qid) + le32_bytes(stat_mode(is_dir)) + le32_bytes(0)
        + le32_bytes(0) + le64_bytes(size as int) + wire_str(encode_utf8(name)) + wire_str(
        root_name(),
    ) + wire_str(root_name()) + wire_str(root_name())
}

/// `root` in ASCII.
pub open spec fn root_name() -> Seq<u8> {
    seq![114u8, 111, 111, 116]
}

pub open spec fn stat_info_bytes(st: StatInfo) -> Seq<u8> {
    stat_bytes(st.name@, st.size, st.is_dir, st.qid)
}

/// A directory listing from entry `i` on, appended to `out`: entries before
/// `offset` are skipped, and entries are added while the listing is shorter
/// than `max`; each is its stat with its length (u16) in front.
pub open spec fn listing_from(stats: Seq<Seq<u8>>, offset: int, max: int, i: int, out: Seq<u8>) -> Seq<u8>
    decreases stats.len() - i,
{
    if i < 0 || i >= stats.len() {
        out
    } else if i < offset {
        listing_from(stats, offset, max, i + 1, out)
    } else if out.len() >= max {
        out
    } else {
        listing_from(stats, offset, max, i + 1, out + wire_str(stats[i]))
    }
}

/// The bytes of a file that a read returns: from `offset`, at most `count`.
pub open spec fn file_slice(contents: Seq<u8>, offset: int, count: int) -> Seq<u8> {
    if offset < contents.len() {
        contents.subrange(
            offset,
            if offset + count < contents.len() {
                offset + count
            } else {
                contents.len() as int
            },
        )
    } else {
        Seq::empty()
    }
}

/// Rread carrying `data`.
pub open spec fn read_reply(tag: u16, data: Seq<u8>) -> Seq<u8> {
    reply_header_spec(117, tag, 4 + data.len() as int) + le32_bytes((data.len() % 0x1_0000_0000) as int) + data
}

/// Once a fid is clunked, a request that names it (open, read, write, stat
/// or remove) is answered "unknown fid" until it is attached or walked to again.
pub proof fn lemma_clunked_fid_unknown(
    fids: Map<u32, FidView>,
    tag: u16,
    body: Seq<u8>,
    t: u8,
    tag2: u16,
    body2: Seq<u8>,
)
    requires
        body.len() >= 4,
        body2.len() >= 16,
        body_fid(body2) == body_fid(body),
        t == 112 || t == 116 || t == 118 || t == 124 || t == 122,
    ensures
        p9_request(p9_request(fids, 120, tag, body).0, t, tag2, body2).1 == unknown_fid(tag2),
{
}

/// Writes a reply header.
pub fn reply_header(msg_type: u8, tag: u16, body_len: u128) -> (r: Vec<u8>)
    requires
        body_len + 7 <= u128::MAX,
    ensures
        r@ == reply_header_spec(msg_type, tag, body_len as int),
{
    let total = ((7 + body_len) % 0x1_0000_0000) as u32;
    let mut r: Vec<u8> = Vec::new();
    push_u32_le(&mut r, total);
    r.push(msg_type);
    push_u16_le(&mut r, tag);
    r
}

/// Appends a string as the wire writes it.
pub fn push_str(buf: &mut Vec<u8>, s: &str)
    ensures
        final(buf)@ == old(buf)@ + wire_str(s.spec_bytes()),
{
    let bytes = s.as_bytes();
    push_u16_le(buf, (bytes.len() % 65536) as u16);
    push_slice(buf, bytes);
    assert(final(buf)@ =~= old(buf)@ + wire_str(s.spec_bytes()));
}

/// Rlerror carrying `msg`.
pub fn error(tag: u16, msg: &str) -> (r: Vec<u8>)
    ensures
        r@ == error_reply(tag, msg@),
{
    let n = msg.as_bytes().len();
    let mut r = reply_header(107, tag, 2 + n as u128);
    push_str(&mut r, msg);
    r
}

/// The qid of a path.
pub fn make_qid(q: QidInfo) -> (r: [u8; 13])
    ensures
        r@ == qid_bytes(q),
{
    let mut v: Vec<u8> = Vec::new();
    v.push(if q.is_dir {
        0x80
    } else {
        0
    });
    push_u32_le(&mut v, 0);
    push_u64_le(&mut v, q.path_hash);
    let r: [u8; 13] = [v[0], v[1], v[2], v[3], v[4], v[5], v[6], v[7], v[8], v[9], v[10], v[11], v[12]];
    assert(r@ =~= qid_bytes(q));
    r
}

fn push_qid(buf: &mut Vec<u8>, q: QidInfo)
    ensures
        final(buf)@ == old(buf)@ + qid_bytes(q),
{
    let b = make_qid(q);
    push_slice(buf, &b);
}

/// Rattach: the qid of the root.
pub fn reply_attach(tag: u16, root: QidInfo) -> (r: Vec<u8>)
    ensures
        r@ == reply_header_spec(105, tag, 13) + qid_bytes(root),
{
    let mut r = reply_header(105, tag, 13);
    push_qid(&mut r, root);
    r
}

/// Rwalk: the number of qids (u16), then each.
pub fn reply_walk(tag: u16, qids: &[QidInfo]) -> (r: Vec<u8>)
    ensures
        r@ == reply_header_spec(111, tag, 2 + qids@.len() as int * 13) + le16_bytes((qids@.len() % 65536) as int)
            + qids_bytes(qids@),
{
    let n = qids.len();
    let mut r = reply_header(111, tag, 2 + (n as u128) * 13);
    push_u16_le(&mut r, (n % 65536) as u16);
    let ghost start = r@;
    let mut i: usize = 0;
    while i < n
        invariant
            n == qids@.len(),
            i <= n,
            r@ == start + qids_bytes(qids@.subrange(0, i as int)),
        decreases n - i,
    {
        push_qid(&mut r, qids[i]);
        i = i + 1;
        assert(qids@.subrange(0, i as int).drop_last() =~= qids@.subrange(0, i - 1));
        assert(r@ =~= start + qids_bytes(qids@.subrange(0, i as int)));
    }
    assert(qids@.subrange(0, n as int) =~= qids@);
    r
}

/// Ropen: the qid and an iounit of 0.
pub fn reply_open(tag: u16, qid: QidInfo) -> (r: Vec<u8>)
    ensures
        r@ == reply_header_spec(113, tag, 17) + qid_bytes(qid) + le32_bytes(0),
{
    let mut r = reply_header(113, tag, 17);
    push_qid(&mut r, qid);
    push_u32_le(&mut r, 0);
    r
}

/// The stat record of an entry.
pub fn make_stat(st: &StatInfo) -> (r: Vec<u8>)
    ensures
        r@ == stat_info_bytes(*st),
{
    let mut s: Vec<u8> = Vec::new();
    push_u16_le(&mut s, 0);
    push_u32_le(&mut s, 0);
    push_qid(&mut s, st.qid);
    let mode: u32 = if st.is_dir {
        0x8000_01ED
    } else {
        0x1A4
    };
    push_u32_le(&mut s, mode);
    push_u32_le(&mut s, 0);
    push_u32_le(&mut s, 0);
    push_u64_le(&mut s, st.size);
    push_str(&mut s, st.name.as_str());
    let root: [u8; 4] = [114, 111, 111, 116];
    push_bytes_str(&mut s, &root);
    push_bytes_str(&mut s, &root);
    push_bytes_str(&mut s, &root);
    assert(s@ =~= stat_info_bytes(*st));
    s
}

/// Appends raw bytes as a wire string.
fn push_bytes_str(buf: &mut Vec<u8>, b: &[u8])
    ensures
        final(buf)@ == old(buf)@ + wire_str(b@),
{
    push_u16_le(buf, (b.len() % 65536) as u16);
    push_slice(buf, b);
    assert(final(buf)@ =~= old(buf)@ + wire_str(b@));
}

/// Rstat: the stat's length (u16), then the stat.
pub fn reply_stat(tag: u16, st: &StatInfo) -> (r: Vec<u8>)
    ensures
        r@ == reply_header_spec(125, tag, 2 + stat_info_bytes(*st).len() as int) + wire_str(
            stat_info_bytes(*st),
        ),
{
    let stat = make_stat(st);
    let mut r = reply_header(125, tag, 2 + stat.len() as u128);
    push_bytes_str(&mut r, &stat);
    r
}

/// Rread carrying `data`.
pub fn reply_read(tag: u16, data: &[u8]) -> (r: Vec<u8>)
    ensures
        r@ == read_reply(tag, data@),
{
    let n = data.len();
    let mut r = reply_header(117, tag, 4 + n as u128);
    push_u32_le(&mut r, (n as u64 % 0x1_0000_0000) as u32);
    push_slice(&mut r, data);
    r
}

/// The part of a file's contents that a read of `count` bytes at `offset`
/// returns (the end of the requested range must be a machine index).
pub fn read_file_slice(contents: &[u8], offset: u64, count: u32) -> (r: Vec<u8>)
    requires
        offset + count <= usize::MAX,
    ensures
        r@ == file_slice(contents@, offset as int, count as int),
{
    let len = contents.len();
    if (offset as u128) < (len as u128) {
        let start = offset as usize;
        let end = if (offset as u128) + (count as u128) < (len as u128) {
            start + count as usize
        } else {
            len
        };
        copy_range(contents, start, end)
    } else {
        Vec::new()
    }
}

/// A directory listing for a read at `offset` of at most `max` bytes, from
/// the entries in order.
pub fn read_dir_listing(entries: &[StatInfo], offset: u64, max: u32) -> (r: Vec<u8>)
    ensures
        r@ == listing_from(
            Seq::new(entries@.len(), |i: int| stat_info_bytes(entries@[i])),
            offset as int,
            max as int,
            0,
            Seq::empty(),
        ),
{
    let ghost stats = Seq::new(entries@.len(), |i: int| stat_info_bytes(entries@[i]));
    let mut out: Vec<u8> = Vec::new();
    let mut i: usize = 0;
    while i < entries.len()
        invariant
            i <= entries@.len(),
            stats == Seq::new(entries@.len(), |i: int| stat_info_bytes(entries@[i])),
            listing_from(stats, offset as int, max as int, i as int, out@) == listing_from(
                stats,
                offset as int,
                max as int,
                0,
                Seq::empty(),
            ),
        ensures
            out@ == listing_from(stats, offset as int, max as int, 0, Seq::empty()),
        decreases entries@.len() - i,
    {
        if (i as u64) < offset {
            i = i + 1;
        } else if out.len() >= max as usize {
            break;
        } else {
            let stat = make_stat(&entries[i]);
            push_bytes_str(&mut out, &stat);
            i = i + 1;
        }
    }
    out
}

/// Rwrite: the number of bytes written, or the error.
pub fn reply_write(tag: u16, written: Result<usize, String>) -> (r: Vec<u8>)
    ensures
        written matches Ok(n) ==> r@ == reply_header_spec(119, tag, 4) + le32_bytes(n as int % 0x1_0000_0000),
        written matches Err(e) ==> r@ == error_reply(tag, e@),
{
    match written {
        Ok(n) => {
            let mut r = reply_header(119, tag, 4);
            push_u32_le(&mut r, (n as u64 % 0x1_0000_0000) as u32);
            r
        },
        Err(e) => error(tag, e.as_str()),
    }
}

/// Rremove, or the error.
pub fn reply_remove(tag: u16, result: Result<(), String>) -> (r: Vec<u8>)
    ensures
        result is Ok ==> r@ == reply_header_spec(123, tag, 0),
        result matches Err(e) ==> r@ == error_reply(tag, e@),
{
    match result {
        Ok(()) => reply_header(123, tag, 0),
        Err(e) => error(tag, e.as_str()),
    }
}

/// Rmkdir: the qid of the new directory, or the error.
pub fn reply_mkdir(tag: u16, result: Result<QidInfo, String>) -> (r: Vec<u8>)
    ensures
        result matches Ok(q) ==> r@ == reply_header_spec(73, tag, 13) + qid_bytes(q),
        result matches Err(e) ==> r@ == error_reply(tag, e@),
{
    match result {
        Ok(q) => {
            let mut r = reply_header(73, tag, 13);
            push_qid(&mut r, q);
            r
        },
        Err(e) => error(tag, e.as_str()),
    }
}

fn copy_names(p: &Vec<String>) -> (r: Vec<String>)
    ensures
        names_view(r) == names_view(*p),
{
    let mut r: Vec<String> = Vec::new();
    let mut i: usize = 0;
    while i < p.len()
        invariant
            i <= p@.len(),
            names_view(r) == names_view(*p).subrange(0, i as int),
        decreases p@.len() - i,
    {
        let ghost old_r = r@;
        r.push(p[i].clone());
        proof {
            assert(r@ =~= old_r.push(r@.last()));
            lemma_seq_names_push(old_r, r@.last());
        }
        i = i + 1;
        assert(names_view(r) =~= names_view(*p).subrange(0, i as int));
    }
    assert(names_view(*p).subrange(0, p@.len() as int) =~= names_view(*p));
    r
}

pub struct P9Device {
    fids: HashMap<u32, P9Fid>,
}

impl View for P9Device {
    type V = Map<u32, FidView>;

    closed spec fn view(&self) -> Map<u32, FidView> {
        self.fids@.map_values(|f: P9Fid| f@)
    }
}

impl P9Device {
    /// A server with no fids.
    pub fn new() -> (d: Self)
        ensures
            d@ == Map::<u32, FidView>::empty(),
    {
        let d = P9Device { fids: HashMap::new() };
        assert(d@ =~= Map::<u32, FidView>::empty());
        d
    }

    fn lookup(&self, fid: u32) -> (r: Option<Vec<String>>)
        ensures
            r is Some <==> self@.contains_key(fid),
            r matches Some(p) ==> names_view(p) == self@[fid].path,
    {
        match self.fids.get(&fid) {
            Some(f) => Some(copy_names(&f.path)),
            None => None,
        }
    }

    /// Decodes message `msg` against the fid table (see `p9_step`).
    pub fn handle(&mut self, msg: &[u8]) -> (op: P9Op)
        requires
            msg@.len() <= isize::MAX,
        ensures
            (final(self)@, op@) == p9_step(old(self)@, msg@),
    {
        if msg.len() < 7 {
            return P9Op::Reply(error(0, "short message"));
        }
        let t = msg[4];
        let tag = read_le16(msg, 5);
        let body = vstd::slice::slice_subrange(msg, 7, msg.len());
        self.request(t, tag, body)
    }

    /// Decodes a request of type `t` (see `p9_request`).
    pub fn request(&mut self, t: u8, tag: u16, body: &[u8]) -> (op: P9Op)
        requires
            body@.len() <= isize::MAX,
        ensures
            (final(self)@, op@) == p9_request(old(self)@, t, tag, body@),
    {
        if t == 100 {
            P9Op::Reply(self.handle_version(tag))
        } else if t == 104 {
            self.handle_attach(tag, body)
        } else if t == 110 {
            self.handle_walk(tag, body)
        } else if t == 112 {
            self.handle_open(tag, body)
        } else if t == 116 {
            self.handle_read(tag, body)
        } else if t == 118 {
            self.handle_write(tag, body)
        } else if t == 120 {
            self.handle_clunk(tag, body)
        } else if t == 124 {
            self.handle_stat(tag, body)
        } else if t == 122 {
            self.handle_remove(tag, body)
        } else if t == 72 {
            self.handle_mkdir(tag, body)
        } else {
            P9Op::Reply(error(tag, "unknown message"))
        }
    }

    fn handle_attach(&mut self, tag: u16, body: &[u8]) -> (op: P9Op)
        ensures
            (final(self)@, op@) == attach_step(old(self)@, tag, body@),
    {
        if body.len() < 4 {
            return P9Op::Reply(error(tag, "short attach"));
        }
        let fid = read_le32(body, 0);
        let root: Vec<String> = Vec::new();
        assert(names_view(root) =~= Seq::<Seq<char>>::empty());
        self.fids.insert(fid, P9Fid { path: root, open: false });
        let ghost v = FidView { path: Seq::empty(), open: false };
        assert(self@ =~= old(self)@.insert(fid, v));
        let reply_root: Vec<String> = Vec::new();
        assert(names_view(reply_root) =~= Seq::<Seq<char>>::empty());
        P9Op::Attach { tag, path: reply_root }
    }

    fn handle_walk(&mut self, tag: u16, body: &[u8]) -> (op: P9Op)
        requires
            body@.len() <= isize::MAX,
        ensures
            (final(self)@, op@) == walk_step(old(self)@, tag, body@),
    {
        if body.len() < 10 {
            return P9Op::Reply(error(tag, "short walk"));
        }
        let fid = read_le32(body, 0);
        let newfid = read_le32(body, 4);
        let nwname = read_le16(body, 8);
        let base = match self.lookup(fid) {
            Some(p) => p,
            None => return P9Op::Reply(error(tag, "unknown fid")),
        };
        let ghost base_v = names_view(base);
        let ghost all_names = walk_names(body@, 10, nwname as int);
        let ghost mut done: Seq<Seq<char>> = Seq::empty();
        let mut path = base;
        let mut paths: Vec<Vec<String>> = Vec::new();
        let mut off: usize = 10;
        let mut k: u16 = 0;
        assert(done + walk_names(body@, off as int, nwname - k) =~= all_names);
        while k < nwname
            invariant
                body@.len() <= isize::MAX,
                k <= nwname,
                10 <= off <= body@.len(),
                done.len() == k,
                all_names == walk_names(body@, 10, nwname as int),
                done + walk_names(body@, off as int, nwname - k) == all_names,
                names_view(path) == base_v + done,
                paths_view(paths@) == walk_paths(base_v, done),
            ensures
                done == all_names,
                names_view(path) == base_v + done,
                paths_view(paths@) == walk_paths(base_v, done),
            decreases nwname - k,
        {
            if off + 2 > body.len() {
                assert(done =~= all_names);
                break;
            }
            let name_len = read_le16(body, off) as usize;
            if off + 2 + name_len > body.len() {
                assert(done =~= all_names);
                break;
            }
            let raw = vstd::slice::slice_subrange(body, off + 2, off + 2 + name_len);
            let name: String = match utf8_str(raw) {
                Some(s) => s.to_owned(),
                None => "?".to_owned(),
            };
            let ghost rest = walk_names(body@, (off + 2 + name_len) as int, nwname - k - 1);
            assert(walk_names(body@, off as int, nwname - k) == seq![name@] + rest);
            let ghost nv = name@;
            let ghost old_path = path@;
            let ghost old_paths = paths@;
            path.push(name);
            let snapshot = copy_names(&path);
            paths.push(snapshot);
            proof {
                let old_done = done;
                done = done.push(nv);
                assert(done + rest =~= old_done + (seq![nv] + rest));
                assert(path@ =~= old_path.push(path@.last()));
                lemma_seq_names_push(old_path, path@.last());
                assert(base_v + done =~= (base_v + old_done).push(nv));
                assert(paths@ =~= old_paths.push(paths@.last()));
                lemma_paths_view_push(old_paths, paths@.last());
                lemma_walk_paths_push(base_v, old_done, nv);
            }
            off = off + 2 + name_len;
            k = k + 1;
        }
        let ghost names = all_names;
        self.fids.insert(newfid, P9Fid { path, open: false });
        assert(self@ =~= old(self)@.insert(newfid, FidView { path: base_v + names, open: false }));
        P9Op::Walk { tag, paths }
    }

    fn handle_open(&mut self, tag: u16, body: &[u8]) -> (op: P9Op)
        ensures
            (final(self)@, op@) == open_step(old(self)@, tag, body@),
    {
        if body.len() < 8 {
            return P9Op::Reply(error(tag, "short open"));
        }
        let fid = read_le32(body, 0);
        match self.lookup(fid) {
            Some(path) => {
                let reply_path = copy_names(&path);
                let ghost pv = names_view(path);
                self.fids.insert(fid, P9Fid { path, open: true });
                assert(self@ =~= old(self)@.insert(fid, FidView { path: pv, open: true }));
                P9Op::Open { tag, path: reply_path }
            },
            None => P9Op::Reply(error(tag, "unknown fid")),
        }
    }

    fn handle_read(&self, tag: u16, body: &[u8]) -> (op: P9Op)
        ensures
            op@ == read_step(self@, tag, body@).1,
            read_step(self@, tag, body@).0 == self@,
    {
        if body.len() < 16 {
            return P9Op::Reply(error(tag, "short read"));
        }
        let fid = read_le32(body, 0);
        let offset = read_le64(body, 4);
        let count = read_le32(body, 12);
        match self.lookup(fid) {
            Some(path) => P9Op::Read { tag, path, offset, count },
            None => P9Op::Reply(error(tag, "unknown fid")),
        }
    }

    fn handle_write(&self, tag: u16, body: &[u8]) -> (op: P9Op)
        ensures
            op@ == write_step(self@, tag, body@).1,
            write_step(self@, tag, body@).0 == self@,
    {
        if body.len() < 16 {
            return P9Op::Reply(error(tag, "short write"));
        }
        let fid = read_le32(body, 0);
        let offset = read_le64(body, 4);
        let count = read_le32(body, 12) as usize;
        let avail = body.len() - 16;
        let n = if count < avail {
            count
        } else {
            avail
        };
        match self.lookup(fid) {
            Some(path) => {
                let data = copy_range(body, 16, 16 + n);
                P9Op::Write { tag, path, offset, data }
            },
            None => P9Op::Reply(error(tag, "unknown fid")),
        }
    }

    fn handle_clunk(&mut self, tag: u16, body: &[u8]) -> (op: P9Op)
        ensures
            (final(self)@, op@) == clunk_step(old(self)@, tag, body@),
    {
        if body.len() < 4 {
            return P9Op::Reply(error(tag, "short clunk"));
        }
        let fid = read_le32(body, 0);
        self.fids.remove(&fid);
        assert(self@ =~= old(self)@.remove(fid));
        P9Op::Reply(reply_header(121, tag, 0))
    }

    fn handle_stat(&self, tag: u16, body: &[u8]) -> (op: P9Op)
        ensures
            op@ == stat_step(self@, tag, body@).1,
            stat_step(self@, tag, body@).0 == self@,
    {
        if body.len() < 4 {
            return P9Op::Reply(error(tag, "short stat"));
        }
        let fid = read_le32(body, 0);
        match self.lookup(fid) {
            Some(path) => P9Op::Stat { tag, path },
            None => P9Op::Reply(error(tag, "unknown fid")),
        }
    }

    fn handle_remove(&mut self, tag: u16, body: &[u8]) -> (op: P9Op)
        ensures
            (final(self)@, op@) == remove_step(old(self)@, tag, body@),
    {
        if body.len() < 4 {
            return P9Op::Reply(error(tag, "short remove"));
        }
        let fid = read_le32(body, 0);
        match self.fids.remove(&fid) {
            Some(f) => {
                assert(self@ =~= old(self)@.remove(fid));
                P9Op::Remove { tag, path: f.path }
            },
            None => {
                assert(self@ =~= old(self)@);
                P9Op::Reply(error(tag, "unknown fid"))
            },
        }
    }

    fn handle_mkdir(&self, tag: u16, body: &[u8]) -> (op: P9Op)
        requires
            body@.len() <= isize::MAX,
        ensures
            op@ == mkdir_step(self@, tag, body@).1,
            mkdir_step(self@, tag, body@).0 == self@,
    {
        if body.len() < 8 {
            return P9Op::Reply(error(tag, "short mkdir"));
        }
        let dfid = read_le32(body, 0);
        let name_len = read_le16(body, 4) as usize;
        if body.len() < 6 + name_len {
            return P9Op::Reply(error(tag, "short mkdir name"));
        }
        let raw = vstd::slice::slice_subrange(body, 6, 6 + name_len);
        let name: String = match utf8_str(raw) {
            Some(s) => s.to_owned(),
            None => "?".to_owned(),
        };
        match self.lookup(dfid) {
            Some(parent) => {
                let mut path = parent;
                let ghost old_path = path@;
                path.push(name);
                proof {
                    assert(path@ =~= old_path.push(path@.last()));
                    lemma_seq_names_push(old_path, path@.last());
                }
                P9Op::Mkdir { tag, path }
            },
            None => P9Op::Reply(error(tag, "unknown fid")),
        }
    }

    fn handle_version(&self, tag: u16) -> (r: Vec<u8>)
        ensures
            r@ == version_reply(tag),
    {
        let mut r = reply_header(101, tag, 14);
        push_u32_le(&mut r, 65536);
        push_u16_le(&mut r, 8);
        let v: [u8; 8] = [57, 80, 50, 48, 48, 48, 46, 76];
        push_slice(&mut r, &v);
        assert(r@ =~= version_reply(tag));
        r
    }
}

} // verus!
