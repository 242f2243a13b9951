//! How a VM boots: what kind of boot image it was given, read from the
//! image's first sectors, and the boot mode that follows from it.

use vstd::prelude::*;
use crate::bytes::{le16_at, le32_at, read_le16, read_le32};
use crate::hypervisor::BootMode;
use crate::text::str_eq;

verus! {

/// How an ISO image boots.
#[derive(PartialEq, Eq, Structural, Clone, Copy, Debug)]
pub enum IsoBootKind {
    /// An MBR or GPT image with an EFI system partition.
    UefiHybrid,
    /// An El Torito catalog with a UEFI entry only for the firmware.
    UefiElTorito,
    /// An El Torito catalog with BIOS entries only.
    BiosOnly,
    /// Nothing recognisable; booted as BIOS.
    Unknown,
}

/// What a VM's boot image is, by its file name and contents.
#[derive(PartialEq, Eq, Structural, Clone, Copy, Debug)]
pub enum BootImage {
    /// No boot image configured.
    Absent,
    /// A raw or qcow2 disk image (`.img`, `.qcow2`).
    Disk,
    /// An ISO image, of the kind its sectors show.
    Iso(IsoBootKind),
    /// Anything else.
    Other,
}

/// Whether the MBR carries the boot signature and one of its four primary
/// partitions has type 0xEF (EFI system partition).
pub open spec fn mbr_has_esp(mbr: Seq<u8>) -> bool {
    &&& mbr[510] == 0x55
    &&& mbr[511] == 0xAA
    &&& exists|i: int| 0 <= i < 4 && #[trigger] partition_type(mbr, i) == 0xEF
}

/// The type byte of primary partition `i` of an MBR.
pub open spec fn partition_type(mbr: Seq<u8>, i: int) -> u8 {
    mbr[0x1BE + i * 16 + 4]
}

/// The boot-record volume descriptor's magic: type 0, `CD001`, and the
/// `EL TORITO SPECIFICATION` system identifier.
pub open spec fn el_torito_magic(vd: Seq<u8>) -> bool {
    &&& vd[0] == 0
    &&& vd.subrange(1, 6) == seq![67u8, 68, 48, 48, 49]
    &&& vd.subrange(7, 30) == el_torito_id()
}

/// `EL TORITO SPECIFICATION` in ASCII.
pub open spec fn el_torito_id() -> Seq<u8> {
    seq![
        69u8, 76, 32, 84, 79, 82, 73, 84, 79, 32, 83, 80, 69, 67, 73, 70, 73, 67, 65, 84, 73, 79,
        78,
    ]
}

/// Walk of the section headers of a boot catalog from offset `off`, with the
/// UEFI and BIOS flags found so far. A header id of 0 or 0xFF ends the walk,
/// 0x91 marks the final section, and each section's entries are skipped.
pub open spec fn catalog_walk(cat: Seq<u8>, off: int, uefi: bool, bios: bool) -> (bool, bool)
    decreases (if 0 <= off < cat.len() { cat.len() - off } else { 0 }),
{
    if off < 0 || off + 32 > cat.len() {
        (uefi, bios)
    } else if cat[off] == 0 || cat[off] == 0xFF {
        (uefi, bios)
    } else {
        let u = uefi || cat[off + 1] == 0xEF;
        let b = bios || cat[off + 1] == 0;
        if cat[off] == 0x91 {
            (u, b)
        } else {
            catalog_walk(cat, off + 32 + le16_at(cat, off + 2) * 32, u, b)
        }
    }
}

/// Whether a boot catalog offers UEFI and BIOS entries: the validation
/// entry's platform, then the section headers from offset 64.
pub open spec fn catalog_platforms(cat: Seq<u8>) -> (bool, bool) {
    catalog_walk(cat, 64, cat[1] == 0xEF, cat[1] == 0)
}

/// Whether the MBR of an image marks an EFI system partition.
pub fn mbr_has_efi_partition(mbr: &[u8]) -> (r: bool)
    requires
        mbr@.len() >= 512,
    ensures
        r == mbr_has_esp(mbr@),
{
    if mbr[510] != 0x55 || mbr[511] != 0xAA {
        return false;
    }
    let mut i: usize = 0;
    while i < 4
        invariant
            i <= 4,
            mbr@.len() >= 512,
            mbr@[510] == 0x55,
            mbr@[511] == 0xAA,
            forall|j: int| 0 <= j < i ==> #[trigger] partition_type(mbr@, j) != 0xEF,
        decreases 4 - i,
    {
        if mbr[0x1BE + i * 16 + 4] == 0xEF {
            assert(partition_type(mbr@, i as int) == 0xEF);
            return true;
        }
        assert(partition_type(mbr@, i as int) != 0xEF);
        i = i + 1;
    }
    false
}

/// The sector of the El Torito boot catalog, when the volume descriptor read
/// at sector 17 is an El Torito boot record.
pub fn el_torito_catalog_lba(vd: &[u8]) -> (lba: Option<u32>)
    requires
        vd@.len() >= 75,
    ensures
        lba is Some <==> el_torito_magic(vd@),
        lba matches Some(l) ==> l as int == le32_at(vd@, 71),
{
    let magic: [u8; 5] = [67, 68, 48, 48, 49];
    let id: [u8; 23] = [
        69, 76, 32, 84, 79, 82, 73, 84, 79, 32, 83, 80, 69, 67, 73, 70, 73, 67, 65, 84, 73, 79, 78,
    ];
    assert(magic@ =~= seq![67u8, 68, 48, 48, 49]);
    assert(id@ =~= el_torito_id());
    if vd[0] != 0 {
        return None;
    }
    let mut i: usize = 0;
    while i < 5
        invariant
            i <= 5,
            vd@.len() >= 75,
            magic@ == seq![67u8, 68, 48, 48, 49],
            forall|j: int| 0 <= j < i ==> vd@[1 + j] == magic@[j],
        decreases 5 - i,
    {
        if vd[1 + i] != magic[i] {
            assert(vd@.subrange(1, 6)[i as int] != magic@[i as int]);
            return None;
        }
        i = i + 1;
    }
    assert(vd@.subrange(1, 6) =~= magic@);
    let mut k: usize = 0;
    while k < 23
        invariant
            k <= 23,
            vd@.len() >= 75,
            id@ == el_torito_id(),
            forall|j: int| 0 <= j < k ==> vd@[7 + j] == id@[j],
        decreases 23 - k,
    {
        if vd[7 + k] != id[k] {
            assert(vd@.subrange(7, 30)[k as int] != id@[k as int]);
            return None;
        }
        k = k + 1;
    }
    assert(vd@.subrange(7, 30) =~= id@);
    Some(read_le32(vd, 71))
}

/// Whether a boot catalog offers UEFI and BIOS boot entries.
pub fn scan_boot_catalog(cat: &[u8]) -> (r: (bool, bool))
    requires
        cat@.len() >= 2,
        cat@.len() <= 0x1_0000_0000,
    ensures
        r == catalog_platforms(cat@),
{
    let mut has_uefi = cat[1] == 0xEF;
    let mut has_bios = cat[1] == 0;
    let mut off: u64 = 64;
    while off + 32 <= cat.len() as u64
        invariant
            cat@.len() <= 0x1_0000_0000,
            off <= 0x1_0000_0000 + 32 + 65535 * 32,
            catalog_walk(cat@, off as int, has_uefi, has_bios) == catalog_platforms(cat@),
        decreases (if off < cat@.len() { cat@.len() - off } else { 0 }),
    {
        let o = off as usize;
        let header_id = cat[o];
        if header_id == 0 || header_id == 0xFF {
            return (has_uefi, has_bios);
        }
        let platform = cat[o + 1];
        if platform == 0xEF {
            has_uefi = true;
        }
        if platform == 0 {
            has_bios = true;
        }
        if header_id == 0x91 {
            return (has_uefi, has_bios);
        }
        let count = read_le16(cat, o + 2) as u64;
        off = off + 32 + count * 32;
    }
    (has_uefi, has_bios)
}

/// The ISO's boot kind from what its boot catalog offers: UEFI El Torito
/// when it has a UEFI entry, else BIOS (also when it lists neither, as most
/// legacy images boot that way).
pub fn catalog_boot_kind(has_uefi: bool, has_bios: bool) -> (k: IsoBootKind)
    ensures
        k == (if has_uefi {
            IsoBootKind::UefiElTorito
        } else {
            IsoBootKind::BiosOnly
        }),
{
    if has_uefi {
        IsoBootKind::UefiElTorito
    } else {
        IsoBootKind::BiosOnly
    }
}

/// How an ISO boots, in order of priority: an EFI partition in its MBR makes
/// it a UEFI hybrid; else its El Torito catalog decides, when one was read
/// (`catalog` holds what the catalog offers: UEFI, BIOS); else it falls back
/// to BIOS.
pub fn iso_boot_kind(mbr_has_efi: bool, catalog: Option<(bool, bool)>) -> (k: IsoBootKind)
    ensures
        k == (if mbr_has_efi {
            IsoBootKind::UefiHybrid
        } else {
            match catalog {
                Some((u, _)) => if u {
                    IsoBootKind::UefiElTorito
                } else {
                    IsoBootKind::BiosOnly
                },
                None => IsoBootKind::BiosOnly,
            }
        }),
{
    if mbr_has_efi {
        return IsoBootKind::UefiHybrid;
    }
    match catalog {
        Some((has_uefi, has_bios)) => catalog_boot_kind(has_uefi, has_bios),
        None => IsoBootKind::BiosOnly,
    }
}

/// Which extensions mark disk images and ISO images, after lowercasing.
pub open spec fn extension_kind(ext_lower: Seq<char>) -> u8 {
    if ext_lower == "img"@ || ext_lower == "qcow2"@ {
        1
    } else if ext_lower == "iso"@ {
        2
    } else {
        0
    }
}

/// Whether a lowercased extension marks a disk image.
pub fn is_disk_extension(ext_lower: &str) -> (r: bool)
    ensures
        r == (extension_kind(ext_lower@) == 1),
{
    str_eq(ext_lower, "img") || str_eq(ext_lower, "qcow2")
}

/// Whether a lowercased extension marks an ISO image.
pub fn is_iso_extension(ext_lower: &str) -> (r: bool)
    ensures
        r == (extension_kind(ext_lower@) == 2),
{
    if str_eq(ext_lower, "img") || str_eq(ext_lower, "qcow2") {
        return false;
    }
    str_eq(ext_lower, "iso")
}

/// The boot mode a VM actually uses. A configured mode other than `Auto`
/// stands; `Auto` boots disk images as disks, ISOs whose sectors show UEFI
/// support as UEFI, and everything else (no image included) as BIOS.
pub open spec fn effective_boot_mode_spec(configured: BootMode, image: BootImage) -> BootMode {
    match configured {
        BootMode::Auto => match image {
            BootImage::Disk => BootMode::Disk,
            BootImage::Iso(k) => if k == IsoBootKind::UefiHybrid || k == IsoBootKind::UefiElTorito {
                BootMode::Uefi
            } else {
                BootMode::Bios
            },
            _ => BootMode::Bios,
        },
        other => other,
    }
}

/// The boot mode a VM actually uses (see `effective_boot_mode_spec`).
pub fn effective_boot_mode(configured: BootMode, image: BootImage) -> (m: BootMode)
    ensures
        m == effective_boot_mode_spec(configured, image),
        m != BootMode::Auto,
        configured != BootMode::Auto ==> m == configured,
{
    match configured {
        BootMode::Auto => match image {
            BootImage::Disk => BootMode::Disk,
            BootImage::Iso(IsoBootKind::UefiHybrid) => BootMode::Uefi,
            BootImage::Iso(IsoBootKind::UefiElTorito) => BootMode::Uefi,
            BootImage::Iso(_) => BootMode::Bios,
            BootImage::Absent => BootMode::Bios,
            BootImage::Other => BootMode::Bios,
        },
        other => other,
    }
}

/// A machine set to choose its boot mode boots UEFI exactly when its image
/// is an ISO that offers UEFI boot (a hybrid image or a UEFI El Torito
/// entry): a BIOS-only or unrecognised ISO, a missing image and any other file
/// boot BIOS, and a disk image boots as a disk. A mode set by hand is kept.
pub proof fn lemma_auto_boot_mode(configured: BootMode, image: BootImage)
    ensures
        configured == BootMode::Auto ==> {
            &&& (effective_boot_mode_spec(configured, image) == BootMode::Uefi) <==> (image
                == BootImage::Iso(IsoBootKind::UefiHybrid) || image == BootImage::Iso(
                IsoBootKind::UefiElTorito,
            ))
            &&& (effective_boot_mode_spec(configured, image) == BootMode::Disk) <==> (image
                == BootImage::Disk)
            &&& image == BootImage::Iso(IsoBootKind::BiosOnly) ==> effective_boot_mode_spec(
                configured,
                image,
            ) == BootMode::Bios
            &&& image == BootImage::Iso(IsoBootKind::Unknown) ==> effective_boot_mode_spec(
                configured,
                image,
            ) == BootMode::Bios
            &&& image == BootImage::Absent ==> effective_boot_mode_spec(configured, image)
                == BootMode::Bios
        },
        configured != BootMode::Auto ==> effective_boot_mode_spec(configured, image) == configured,
{
}

} // verus!
