//! Reading the EFI system partition of a hybrid ISO: the partition's place
//! in the MBR, the FAT32 layout from its boot sector, cluster chains and
//! directory entries. Reading the sectors is the caller's part.

use vstd::prelude::*;
use crate::bytes::{le16_at, le32_at, read_le16, read_le32};
use crate::text::{utf8_str, trim_end_str, trim_end_spec, TextBuf};
use vstd::utf8::{valid_utf8, decode_utf8};

verus! {

/// Offset of the `i`-th primary partition entry of an MBR.
pub open spec fn mbr_entry(i: int) -> int {
    0x1BE + i * 16
}

/// The first MBR entry of type 0xEF from entry `i` on, as (start LBA,
/// sector count); (0, 0) when there is none.
pub open spec fn efi_entry_from(mbr: Seq<u8>, i: int) -> (u32, u32)
    decreases 4 - i,
{
    if i < 0 || i >= 4 {
        (0, 0)
    } else if mbr[mbr_entry(i) + 4] == 0xEF {
        (le32_at(mbr, mbr_entry(i) + 8) as u32, le32_at(mbr, mbr_entry(i) + 12) as u32)
    } else {
        efi_entry_from(mbr, i + 1)
    }
}

/// The EFI system partition of a 512-byte MBR: the first entry of type 0xEF,
/// when both its start and its length are non-zero.
pub open spec fn efi_partition_spec(mbr: Seq<u8>) -> Option<(u32, u32)> {
    let (lba, secs) = efi_entry_from(mbr, 0);
    if lba == 0 || secs == 0 {
        None
    } else {
        Some((lba, secs))
    }
}

/// The EFI system partition of an MBR (see `efi_partition_spec`).
pub fn efi_partition(mbr: &[u8]) -> (r: Option<(u32, u32)>)
    requires
        mbr@.len() >= 512,
    ensures
        r == efi_partition_spec(mbr@),
{
    let mut lba: u32 = 0;
    let mut secs: u32 = 0;
    let mut i: usize = 0;
    while i < 4
        invariant_except_break
            lba == 0,
            secs == 0,
        invariant
            mbr@.len() >= 512,
            i <= 4,
            efi_entry_from(mbr@, 0) == efi_entry_from(mbr@, i as int),
        ensures
            efi_entry_from(mbr@, 0) == (lba, secs),
        decreases 4 - i,
    {
        let off = 0x1BE + i * 16;
        if mbr[off + 4] == 0xEF {
            lba = read_le32(mbr, off + 8);
            secs = read_le32(mbr, off + 12);
            break;
        }
        i = i + 1;
    }
    if lba == 0 || secs == 0 {
        None
    } else {
        Some((lba, secs))
    }
}

/// The layout of a FAT32 file system, from its boot sector.
#[derive(Clone, Copy, Debug)]
pub struct FatLayout {
    /// Byte offset of the partition in the image.
    pub part_offset: u64,
    pub bytes_per_sec: u32,
    pub sec_per_cluster: u32,
    pub reserved_secs: u32,
    /// First sector of the data area, relative to the partition.
    pub data_start_sec: u32,
    pub root_cluster: u32,
}

/// The boot sector's fields: bytes per sector (u16 at 11), sectors per
/// cluster (13), reserved sectors (u16 at 14), number of FATs (16),
/// sectors per FAT (u32 at 36), root directory cluster (u32 at 44).
pub open spec fn fat_data_start(bs: Seq<u8>) -> int {
    le16_at(bs, 14) + bs[16] * le32_at(bs, 36)
}

/// The layout of the FAT32 file system whose boot sector `bs` starts at
/// sector `lba` (512-byte sectors). Its data area must start within 32 bits
/// of sectors.
pub fn fat_layout(bs: &[u8], lba: u32) -> (l: FatLayout)
    requires
        bs@.len() >= 512,
        fat_data_start(bs@) <= u32::MAX,
    ensures
        l.part_offset == lba * 512,
        l.bytes_per_sec == le16_at(bs@, 11),
        l.sec_per_cluster == bs@[13],
        l.reserved_secs == le16_at(bs@, 14),
        l.data_start_sec == fat_data_start(bs@),
        l.root_cluster == le32_at(bs@, 44),
{
    let n_fats = bs[16] as u32;
    let sec_per_fat = read_le32(bs, 36);
    let reserved = read_le16(bs, 14) as u32;
    assert(n_fats * sec_per_fat <= u32::MAX) by {
        assert(n_fats * sec_per_fat == bs@[16] * le32_at(bs@, 36));
    }
    FatLayout {
        part_offset: lba as u64 * 512,
        bytes_per_sec: read_le16(bs, 11) as u32,
        sec_per_cluster: bs[13] as u32,
        reserved_secs: reserved,
        data_start_sec: reserved + n_fats * sec_per_fat,
        root_cluster: read_le32(bs, 44),
    }
}

/// Bytes in a cluster.
pub open spec fn cluster_size_spec(l: FatLayout) -> int {
    l.bytes_per_sec * l.sec_per_cluster
}

/// The sector (relative to the partition) where cluster `cl` starts.
pub open spec fn cluster_sector(l: FatLayout, cl: u32) -> int {
    l.data_start_sec + (cl - 2) * l.sec_per_cluster
}

impl FatLayout {
    /// Bytes in a cluster (a boot sector's fields keep it within 32 bits).
    pub fn cluster_size(&self) -> (n: u32)
        requires
            self.bytes_per_sec <= 0xFFFF,
            self.sec_per_cluster <= 0xFF,
        ensures
            n == cluster_size_spec(*self),
    {
        assert(self.bytes_per_sec * self.sec_per_cluster <= 0xFFFF * 0xFF) by (nonlinear_arith)
            requires
                self.bytes_per_sec <= 0xFFFF,
                self.sec_per_cluster <= 0xFF,
        ;
        self.bytes_per_sec * self.sec_per_cluster
    }

    /// Byte offset in the image of cluster `cl` (clusters are numbered from 2).
    pub fn cluster_offset(&self, cl: u32) -> (off: u64)
        requires
            cl >= 2,
            cluster_sector(*self, cl) <= u32::MAX,
            self.bytes_per_sec <= 0xFFFF,
            self.part_offset <= 0x200_0000_0000,
        ensures
            off == self.part_offset + cluster_sector(*self, cl) * self.bytes_per_sec,
    {
        let k = cl - 2;
        assert(k * self.sec_per_cluster <= u32::MAX) by (nonlinear_arith)
            requires
                self.data_start_sec + k * self.sec_per_cluster <= u32::MAX,
                self.data_start_sec >= 0,
        ;
        let sec = self.data_start_sec + k * self.sec_per_cluster;
        assert(sec as u64 * self.bytes_per_sec as u64 <= 0xFFFF_FFFF * 0xFFFF) by (nonlinear_arith)
            requires
                sec <= 0xFFFF_FFFF,
                self.bytes_per_sec <= 0xFFFF,
        ;
        self.part_offset + sec as u64 * self.bytes_per_sec as u64
    }

    /// Byte offset in the image of the FAT entry of cluster `cl`.
    pub fn fat_entry_offset(&self, cl: u32) -> (off: u64)
        requires
            self.bytes_per_sec <= 0xFFFF,
            self.reserved_secs <= 0xFFFF,
            self.part_offset <= 0x200_0000_0000,
        ensures
            off == self.part_offset + self.reserved_secs * self.bytes_per_sec + cl * 4,
    {
        assert(self.reserved_secs as u64 * self.bytes_per_sec as u64 <= 0xFFFF * 0xFFFF) by (nonlinear_arith)
            requires
                self.reserved_secs <= 0xFFFF,
                self.bytes_per_sec <= 0xFFFF,
        ;
        self.part_offset + self.reserved_secs as u64 * self.bytes_per_sec as u64 + cl as u64 * 4
    }
}

/// A cluster chain is cut off past this many clusters.
pub const MAX_CHAIN: usize = 1_000_000;

/// The cluster that FAT entry `raw` of cluster `last` leads to: none at the
/// end of the chain (0x0FFFFFF8 and up), for a free entry, or for an entry
/// that points back at itself.
pub open spec fn next_cluster_spec(raw: u32, last: u32) -> Option<u32> {
    let nxt = raw & 0x0FFF_FFFF;
    if nxt >= 0x0FFF_FFF8 || nxt == 0 || nxt == last {
        None
    } else {
        Some(nxt)
    }
}

/// The clusters of a file or directory, in order.
pub struct FatChain {
    pub clusters: Vec<u32>,
}

impl FatChain {
    /// A chain that starts at `start`.
    pub fn new(start: u32) -> (c: Self)
        ensures
            c.clusters@ == seq![start],
    {
        let mut v: Vec<u32> = Vec::new();
        v.push(start);
        FatChain { clusters: v }
    }

    /// The last cluster so far.
    pub fn last(&self) -> (c: u32)
        requires
            self.clusters@.len() > 0,
        ensures
            c == self.clusters@.last(),
    {
        self.clusters[self.clusters.len() - 1]
    }

    /// Follows FAT entry `raw` of the last cluster: appends the cluster it
    /// leads to, if any. Whether to read on: only after an append that left
    /// the chain at most `MAX_CHAIN` long.
    pub fn follow(&mut self, raw: u32) -> (more: bool)
        requires
            old(self).clusters@.len() > 0,
            old(self).clusters@.len() <= MAX_CHAIN,
        ensures
            next_cluster_spec(raw, old(self).clusters@.last()) matches Some(n) ==> final(self).clusters@
                == old(self).clusters@.push(n),
            next_cluster_spec(raw, old(self).clusters@.last()) is None ==> final(self).clusters@
                == old(self).clusters@,
            more == (next_cluster_spec(raw, old(self).clusters@.last()) is Some
                && final(self).clusters@.len() <= MAX_CHAIN),
    {
        let last = self.last();
        let nxt = raw & 0x0FFF_FFFF;
        if nxt >= 0x0FFF_FFF8 || nxt == 0 || nxt == last {
            return false;
        }
        self.clusters.push(nxt);
        self.clusters.len() <= MAX_CHAIN
    }
}

/// A directory entry of a FAT file system: 8.3 name, attributes, first
/// cluster and size.
pub struct FatEntry {
    pub name: String,
    pub attr: u8,
    pub cluster: u32,
    pub size: u32,
}

/// The text of a name field: its UTF-8 text without trailing blanks, or
/// nothing when it is not UTF-8.
pub open spec fn name_field(raw: Seq<u8>) -> Seq<char> {
    if valid_utf8(raw) {
        trim_end_spec(decode_utf8(raw))
    } else {
        Seq::empty()
    }
}

/// The 8.3 name of a 32-byte entry: base name, then `.` and the extension
/// when there is one.
pub open spec fn short_name(e: Seq<u8>) -> Seq<char> {
    let base = name_field(e.subrange(0, 8));
    let ext = name_field(e.subrange(8, 11));
    if ext.len() == 0 {
        base
    } else {
        base + seq!['.'] + ext
    }
}

/// The entry at 32-byte slot `k` of a directory.
pub open spec fn slot(data: Seq<u8>, k: int) -> Seq<u8> {
    data.subrange(32 * k, 32 * k + 32)
}

/// What a directory lists from slot `k` on: the walk stops at a slot whose
/// first byte is 0, skips deleted slots (0xE5) and long-name slots
/// (attribute 0x0F), and takes every other slot as (name, attribute,
/// cluster, size). A trailing partial slot is ignored.
pub open spec fn dir_entries_from(data: Seq<u8>, k: int) -> Seq<(Seq<char>, u8, u32, u32)>
    decreases data.len() - 32 * k,
{
    if k < 0 || 32 * k + 32 > data.len() {
        Seq::empty()
    } else {
        let e = slot(data, k);
        if e[0] == 0 {
            Seq::empty()
        } else if e[0] == 0xE5 || e[11] == 0x0F {
            dir_entries_from(data, k + 1)
        } else {
            seq![
                (
                    short_name(e),
                    e[11],
                    (le16_at(e, 20) * 0x10000 + le16_at(e, 26)) as u32,
                    le32_at(e, 28) as u32,
                ),
            ] + dir_entries_from(data, k + 1)
        }
    }
}

pub open spec fn fat_entry_view(e: FatEntry) -> (Seq<char>, u8, u32, u32) {
    (e.name@, e.attr, e.cluster, e.size)
}

fn name_text(raw: &[u8]) -> (r: &str)
    ensures
        r@ == name_field(raw@),
{
    match utf8_str(raw) {
        Some(s) => trim_end_str(s),
        None => {
            proof {
                reveal_strlit("");
            }
            trim_end_str("")
        },
    }
}

/// The 8.3 name of a 32-byte entry (see `short_name`).
pub fn entry_name(e: &[u8]) -> (r: String)
    requires
        e@.len() == 32,
    ensures
        r@ == short_name(e@),
{
    let base = name_text(vstd::slice::slice_subrange(e, 0, 8));
    let ext = name_text(vstd::slice::slice_subrange(e, 8, 11));
    let mut t = TextBuf::new();
    t.push_str(base);
    if !ext.is_empty() {
        t.push_char('.');
        t.push_str(ext);
    }
    let r = t.into_string();
    assert(r@ =~= short_name(e@));
    r
}

/// The entries a directory's data lists (see `dir_entries_from`).
pub fn parse_dir(data: &[u8]) -> (r: Vec<FatEntry>)
    ensures
        Seq::new(r@.len(), |i: int| fat_entry_view(r@[i])) == dir_entries_from(data@, 0),
{
    let mut out: Vec<FatEntry> = Vec::new();
    let mut k: usize = 0;
    let n = data.len() / 32;
    while k < n
        invariant
            n == data@.len() / 32,
            data@.len() <= usize::MAX,
            k <= n,
            Seq::new(out@.len(), |i: int| fat_entry_view(out@[i])) + dir_entries_from(data@, k as int)
                == dir_entries_from(data@, 0),
        ensures
            Seq::new(out@.len(), |i: int| fat_entry_view(out@[i])) == dir_entries_from(data@, 0),
        decreases n - k,
    {
        let ghost before = Seq::new(out@.len(), |i: int| fat_entry_view(out@[i]));
        assert(32 * k + 32 <= data@.len()) by (nonlinear_arith)
            requires
                k < n,
                n == data@.len() / 32,
        ;
        let e = vstd::slice::slice_subrange(data, 32 * k, 32 * k + 32);
        assert(e@ == slot(data@, k as int));
        if e[0] == 0 {
            assert(before =~= before + dir_entries_from(data@, k as int));
            break;
        }
        if e[0] == 0xE5 || e[11] == 0x0F {
            k = k + 1;
            continue;
        }
        let name = entry_name(e);
        let hi = read_le16(e, 20) as u32;
        let lo = read_le16(e, 26) as u32;
        let cluster = (hi << 16) | lo;
        proof {
            assert((hi << 16) | lo == hi * 0x10000 + lo) by (bit_vector)
                requires
                    hi <= 0xFFFF,
                    lo <= 0xFFFF,
            ;
        }
        let size = read_le32(e, 28);
        let ghost item = (short_name(e@), e@[11], (le16_at(e@, 20) * 0x10000 + le16_at(e@, 26)) as u32, le32_at(e@, 28) as u32);
        out.push(FatEntry { name, attr: e[11], cluster, size });
        k = k + 1;
        assert(Seq::new(out@.len(), |i: int| fat_entry_view(out@[i])) =~= before.push(item));
        assert(before.push(item) + dir_entries_from(data@, k as int) =~= before + (seq![item] + dir_entries_from(data@, k as int)));
    }
    if k >= n {
        assert(dir_entries_from(data@, k as int) =~= Seq::<(Seq<char>, u8, u32, u32)>::empty());
    }
    out
}

/// What becomes of a directory entry when the tree is copied.
#[derive(Clone, Copy, Debug, PartialEq, Eq, Structural)]
pub enum EntryAction {
    /// `.`, `..`, hidden or nameless: left out.
    Skip,
    /// A subdirectory (attribute bit 0x10): copied recursively.
    Dir,
    File,
}

pub open spec fn entry_action_spec(name: Seq<char>, attr: u8) -> EntryAction {
    if name.len() == 0 || name[0] == '.' {
        EntryAction::Skip
    } else if attr & 0x10 != 0 {
        EntryAction::Dir
    } else {
        EntryAction::File
    }
}

/// What becomes of a directory entry when the tree is copied.
pub fn entry_action(e: &FatEntry) -> (a: EntryAction)
    ensures
        a == entry_action_spec(e.name@, e.attr),
{
    let b = e.name.as_str().as_bytes();
    proof {
        if e.name@.len() > 0 {
            vstd::utf8::encode_utf8_first_scalar(e.name@);
        } else {
            assert(vstd::utf8::encode_utf8(e.name@) =~= Seq::<u8>::empty());
        }
    }
    if b.len() == 0 || b[0] == 46 {
        proof {
            if e.name@.len() > 0 {
                lemma_first_byte_dot(e.name@);
            }
        }
        EntryAction::Skip
    } else {
        proof {
            lemma_first_byte_dot(e.name@);
        }
        if e.attr & 0x10 != 0 {
            EntryAction::Dir
        } else {
            EntryAction::File
        }
    }
}

proof fn lemma_first_byte_dot(s: Seq<char>)
    requires
        s.len() > 0,
    ensures
        (vstd::utf8::encode_utf8(s)[0] == 46) == (s[0] == '.'),
        vstd::utf8::encode_utf8(s).len() > 0,
{
    vstd::utf8::encode_utf8_first_scalar(s);
    vstd::utf8::char_is_scalar(s[0]);
    let v = s[0] as u32;
    vstd::utf8::char_u32_cast(s[0], v);
    vstd::utf8::char_u32_cast('.', 46);
    assert(vstd::utf8::encode_utf8(s) == vstd::utf8::encode_scalar(v) + vstd::utf8::encode_utf8(s.drop_first()));
    assert(vstd::utf8::encode_scalar(v).len() > 0);
    assert(vstd::utf8::encode_utf8(s)[0] == vstd::utf8::encode_scalar(v)[0]);
    assert(s[0] == '.' <==> v == 46);
    if v <= 0x7F {
        assert((v & 0x7F) as u8 == 46 <==> v == 46) by (bit_vector)
            requires
                v <= 0x7F,
        ;
    } else if v <= 0x7FF {
        assert(0xC0 | ((v >> 6) & 0x1F) as u8 != 46) by (bit_vector);
    } else if v <= 0xFFFF {
        assert(0xE0 | ((v >> 12) & 0x0F) as u8 != 46) by (bit_vector);
    } else {
        assert(0xF0 | ((v >> 18) & 0x7) as u8 != 46) by (bit_vector);
    }
}

} // verus!
