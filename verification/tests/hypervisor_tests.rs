use knofoo_vm::hypervisor::boot::{
    catalog_boot_kind, iso_boot_kind, effective_boot_mode, el_torito_catalog_lba, is_disk_extension,
    is_iso_extension, mbr_has_efi_partition, scan_boot_catalog, BootImage, IsoBootKind,
};
use knofoo_vm::hypervisor::dirty::dirty_page_rects;
use knofoo_vm::hypervisor::esp::{
    efi_partition, entry_action, fat_layout, parse_dir, EntryAction, FatChain, FatEntry,
};
use knofoo_vm::hypervisor::iso9660::{
    find_child, iso_dir_walk, pvd_root, record_action, record_name, IsoError, RecordAction,
};
use knofoo_vm::hypervisor::qemu::{build_args, Firmware, QemuHost};
use knofoo_vm::hypervisor::rfb::{
    colour_map_len, cut_text_len, rect_data_len, server_message, update_rect_count, ServerMessage,
};
use knofoo_vm::hypervisor::rfb::{
    bgrx_to_rgba, choose_security, key_event, parse_rect_header, parse_server_init,
    pointer_event, polled_state, protocol_version, set_encodings_raw, state_after_frame,
    update_request, PointerEvent, PointerState,
};
use knofoo_vm::hypervisor::{
    BootMode, InputConfig, MachineConfig, NetworkConfig, PortForward, VmState,
};

fn config() -> MachineConfig {
    MachineConfig {
        id: "vm1".to_string(),
        iso_path: None,
        disk_path: String::new(),
        ram_mb: 2048,
        cpus: 2,
        shared_folder: None,
        boot_mode: BootMode::Auto,
        network: NetworkConfig { lan: false, internet: false, port_forwards: Vec::new() },
        input: InputConfig { keyboard_passthrough: true },
    }
}

fn host() -> QemuHost {
    QemuHost {
        vnc_port: 5910,
        agent_port: 6010,
        image: BootImage::Absent,
        image_ext: String::new(),
        firmware: Firmware::Missing,
        esp_dir: None,
        disk_exists: false,
        accel: None,
    }
}

fn strs(v: &[&str]) -> Vec<String> {
    v.iter().map(|s| s.to_string()).collect()
}

const BASE: [&str; 27] = [
    "-machine", "q35", "-cpu", "max", "-m", "2048", "-smp", "2", "-display", "none", "-vnc",
    "127.0.0.1:10", "-vga", "std", "-no-reboot", "-device", "virtio-serial-pci,id=vser0",
    "-chardev", "socket,id=agent0,host=127.0.0.1,port=6010,server=on,wait=off", "-device",
    "virtserialport,bus=vser0.0,chardev=agent0,name=foo.knofoo.agent", "-device",
    "qemu-xhci,id=xhci", "-device", "usb-tablet,bus=xhci.0", "-device", "virtio-rng-pci",
];

#[test]
fn qemu_args_minimal_machine() {
    let mut want = strs(&BASE);
    want.extend(strs(&["-nic", "none"]));
    assert_eq!(build_args(&config(), &host()), want);
}

#[test]
fn qemu_args_uefi_iso_with_esp_and_forwards() {
    let mut c = config();
    c.iso_path = Some("/x/a.iso".to_string());
    c.network.internet = true;
    c.network.port_forwards.push(PortForward { host: 2222, guest: 22, proto: "tcp".to_string() });
    let mut h = host();
    h.image = BootImage::Iso(IsoBootKind::UefiHybrid);
    h.image_ext = "iso".to_string();
    h.firmware = Firmware::Split { code: "/c.fd".to_string(), vars: "/v.fd".to_string() };
    h.esp_dir = Some("/esp".to_string());
    h.accel = Some("kvm".to_string());
    let args = build_args(&c, &h);
    let base: Vec<String> = strs(&BASE);
    assert_eq!(&args[..21], &base[..21]);
    assert_eq!(
        &args[21..25],
        &strs(&[
            "-drive",
            "if=pflash,format=raw,unit=0,readonly=on,file=/c.fd",
            "-drive",
            "if=pflash,format=raw,unit=1,file=/v.fd",
        ])[..]
    );
    assert_eq!(&args[25..31], &base[21..27]);
    assert_eq!(
        &args[31..],
        &strs(&[
            "-drive",
            "format=raw,file=fat:rw:/esp",
            "-cdrom",
            "/x/a.iso",
            "-netdev",
            "user,id=net0,hostfwd=tcp::2222-:22",
            "-device",
            "virtio-net-pci,netdev=net0",
            "-accel",
            "kvm",
        ])[..]
    );
}

#[test]
fn qemu_args_uefi_without_esp_boots_cdrom() {
    let mut c = config();
    c.iso_path = Some("/a.iso".to_string());
    c.boot_mode = BootMode::Uefi;
    let mut h = host();
    h.firmware = Firmware::Combined("/ovmf.fd".to_string());
    let args = build_args(&c, &h);
    assert_eq!(&args[21..23], &strs(&["-bios", "/ovmf.fd"])[..]);
    assert_eq!(&args[29..], &strs(&["-cdrom", "/a.iso", "-boot", "d", "-nic", "none"])[..]);
}

#[test]
fn qemu_args_bios_disk_and_share() {
    let mut c = config();
    c.iso_path = Some("/img/d.qcow2".to_string());
    c.disk_path = "/extra.img".to_string();
    c.shared_folder = Some("/share".to_string());
    let mut h = host();
    h.image = BootImage::Disk;
    h.image_ext = "qcow2".to_string();
    h.disk_exists = true;
    h.firmware = Firmware::Combined("/unused.fd".to_string());
    let args = build_args(&c, &h);
    assert_eq!(
        &args[27..],
        &strs(&[
            "-drive",
            "file=/img/d.qcow2,format=qcow2,if=virtio,index=0,media=disk",
            "-drive",
            "file=/extra.img,format=raw,if=virtio",
            "-virtfs",
            "local,path=/share,mount_tag=workspace,security_model=mapped-xattr,id=fsdev0",
            "-nic",
            "none",
        ])[..]
    );
    let mut raw = c.clone();
    raw.iso_path = Some("/d.img".to_string());
    raw.disk_path = "/missing.img".to_string();
    let mut h2 = host();
    h2.image = BootImage::Disk;
    h2.image_ext = "img".to_string();
    let args = build_args(&raw, &h2);
    assert_eq!(args[28], "file=/d.img,format=raw,if=virtio,index=0,media=disk");
    assert_eq!(args[29], "-virtfs");
}

#[test]
fn qemu_args_bios_iso() {
    let mut c = config();
    c.iso_path = Some("/b.iso".to_string());
    let mut h = host();
    h.image = BootImage::Iso(IsoBootKind::BiosOnly);
    let args = build_args(&c, &h);
    assert_eq!(&args[27..31], &strs(&["-cdrom", "/b.iso", "-boot", "d"])[..]);
}

#[test]
fn boot_mode_resolution() {
    assert_eq!(effective_boot_mode(BootMode::Auto, BootImage::Disk), BootMode::Disk);
    assert_eq!(effective_boot_mode(BootMode::Auto, BootImage::Iso(IsoBootKind::UefiElTorito)), BootMode::Uefi);
    assert_eq!(effective_boot_mode(BootMode::Auto, BootImage::Iso(IsoBootKind::Unknown)), BootMode::Bios);
    assert_eq!(effective_boot_mode(BootMode::Auto, BootImage::Absent), BootMode::Bios);
    assert_eq!(effective_boot_mode(BootMode::Disk, BootImage::Iso(IsoBootKind::UefiHybrid)), BootMode::Disk);
    assert!(is_disk_extension("qcow2") && is_disk_extension("img") && !is_disk_extension("iso"));
    assert!(is_iso_extension("iso") && !is_iso_extension("img"));
}

#[test]
fn mbr_efi_partition_detection() {
    let mut mbr = vec![0u8; 512];
    mbr[0x1CE + 4] = 0xEF;
    assert!(!mbr_has_efi_partition(&mbr));
    mbr[510] = 0x55;
    mbr[511] = 0xAA;
    assert!(mbr_has_efi_partition(&mbr));
    mbr[0x1CE + 4] = 0x0B;
    assert!(!mbr_has_efi_partition(&mbr));
}

#[test]
fn el_torito_catalog_and_platforms() {
    let mut vd = vec![0u8; 2048];
    vd[1..6].copy_from_slice(b"CD001");
    vd[7..30].copy_from_slice(b"EL TORITO SPECIFICATION");
    vd[71..75].copy_from_slice(&19u32.to_le_bytes());
    assert_eq!(el_torito_catalog_lba(&vd), Some(19));
    vd[3] = b'X';
    assert_eq!(el_torito_catalog_lba(&vd), None);

    let mut cat = vec![0u8; 2048];
    cat[1] = 0x00;
    cat[64] = 0x91;
    cat[65] = 0xEF;
    assert_eq!(scan_boot_catalog(&cat), (true, true));
    let mut bios = vec![0u8; 2048];
    bios[1] = 0x00;
    assert_eq!(scan_boot_catalog(&bios), (false, true));
    assert_eq!(catalog_boot_kind(true, true), IsoBootKind::UefiElTorito);
    assert_eq!(catalog_boot_kind(false, true), IsoBootKind::BiosOnly);
    assert_eq!(catalog_boot_kind(false, false), IsoBootKind::BiosOnly);
}

#[test]
fn iso_boot_kind_follows_priority() {
    assert_eq!(iso_boot_kind(true, Some((true, true))), IsoBootKind::UefiHybrid);
    assert_eq!(iso_boot_kind(false, Some((true, false))), IsoBootKind::UefiElTorito);
    assert_eq!(iso_boot_kind(false, Some((false, true))), IsoBootKind::BiosOnly);
    assert_eq!(iso_boot_kind(false, Some((false, false))), IsoBootKind::BiosOnly);
    assert_eq!(iso_boot_kind(false, None), IsoBootKind::BiosOnly);
}

#[test]
fn esp_partition_from_mbr() {
    let mut mbr = vec![0u8; 512];
    assert_eq!(efi_partition(&mbr), None);
    mbr[0x1CE + 4] = 0xEF;
    mbr[0x1CE + 8..0x1CE + 12].copy_from_slice(&2048u32.to_le_bytes());
    mbr[0x1CE + 12..0x1CE + 16].copy_from_slice(&4096u32.to_le_bytes());
    assert_eq!(efi_partition(&mbr), Some((2048, 4096)));
    mbr[0x1CE + 8..0x1CE + 12].copy_from_slice(&0u32.to_le_bytes());
    assert_eq!(efi_partition(&mbr), None);
}

#[test]
fn fat_layout_and_offsets() {
    let mut bs = vec![0u8; 512];
    bs[11..13].copy_from_slice(&512u16.to_le_bytes());
    bs[13] = 8;
    bs[14..16].copy_from_slice(&32u16.to_le_bytes());
    bs[16] = 2;
    bs[36..40].copy_from_slice(&100u32.to_le_bytes());
    bs[44..48].copy_from_slice(&2u32.to_le_bytes());
    let l = fat_layout(&bs, 2048);
    assert_eq!(l.part_offset, 1_048_576);
    assert_eq!(l.data_start_sec, 232);
    assert_eq!(l.root_cluster, 2);
    assert_eq!(l.cluster_size(), 4096);
    assert_eq!(l.cluster_offset(2), 1_048_576 + 232 * 512);
    assert_eq!(l.cluster_offset(3), 1_048_576 + 240 * 512);
    assert_eq!(l.fat_entry_offset(5), 1_048_576 + 32 * 512 + 20);
}

#[test]
fn fat_chain_follows_until_end() {
    let mut c = FatChain::new(2);
    assert!(c.follow(3));
    assert!(c.follow(0xF000_0005));
    assert_eq!(c.clusters, vec![2, 3, 5]);
    assert!(!c.follow(5));
    assert!(!c.follow(0x0FFF_FFFF));
    assert!(!c.follow(0));
    assert_eq!(c.clusters, vec![2, 3, 5]);
    assert_eq!(c.last(), 5);
}

fn fat_slot(name: &[u8; 11], attr: u8, cluster: u32, size: u32) -> [u8; 32] {
    let mut e = [0u8; 32];
    e[0..11].copy_from_slice(name);
    e[11] = attr;
    e[20..22].copy_from_slice(&((cluster >> 16) as u16).to_le_bytes());
    e[26..28].copy_from_slice(&(cluster as u16).to_le_bytes());
    e[28..32].copy_from_slice(&size.to_le_bytes());
    e
}

#[test]
fn fat_directory_entries() {
    let mut data = Vec::new();
    data.extend_from_slice(&fat_slot(b"EFI        ", 0x10, 3, 0));
    let mut deleted = fat_slot(b"OLD     TXT", 0x20, 9, 1);
    deleted[0] = 0xE5;
    data.extend_from_slice(&deleted);
    data.extend_from_slice(&fat_slot(b"Bxxxxxxxxxx", 0x0F, 0, 0));
    data.extend_from_slice(&fat_slot(b"BOOTX64 EFI", 0x20, 0x0001_0002, 1234));
    data.extend_from_slice(&[0u8; 32]);
    data.extend_from_slice(&fat_slot(b"AFTER   END", 0x20, 4, 4));
    let entries = parse_dir(&data);
    assert_eq!(entries.len(), 2);
    assert_eq!(entries[0].name, "EFI");
    assert_eq!((entries[0].attr, entries[0].cluster, entries[0].size), (0x10, 3, 0));
    assert_eq!(entries[1].name, "BOOTX64.EFI");
    assert_eq!((entries[1].attr, entries[1].cluster, entries[1].size), (0x20, 0x0001_0002, 1234));
    assert_eq!(entry_action(&entries[0]), EntryAction::Dir);
    assert_eq!(entry_action(&entries[1]), EntryAction::File);
    let dot = FatEntry { name: "..".to_string(), attr: 0x10, cluster: 0, size: 0 };
    assert_eq!(entry_action(&dot), EntryAction::Skip);
    let empty = FatEntry { name: String::new(), attr: 0, cluster: 0, size: 0 };
    assert_eq!(entry_action(&empty), EntryAction::Skip);
}

fn iso_record(name: &[u8], flags: u8, lba: u32, size: u32) -> Vec<u8> {
    let mut len = 33 + name.len();
    if len % 2 == 1 {
        len += 1;
    }
    let mut r = vec![0u8; len];
    r[0] = len as u8;
    r[2..6].copy_from_slice(&lba.to_le_bytes());
    r[10..14].copy_from_slice(&size.to_le_bytes());
    r[25] = flags;
    r[32] = name.len() as u8;
    r[33..33 + name.len()].copy_from_slice(name);
    r
}

#[test]
fn iso9660_directory_walk_and_lookup() {
    let mut data = Vec::new();
    data.extend(iso_record(&[0], 2, 18, 2048));
    data.extend(iso_record(&[1], 2, 18, 2048));
    data.extend(iso_record(b"EFI", 2, 20, 2048));
    data.extend(iso_record(b"BOOT.CAT;1", 0, 21, 2048));
    data.extend(vec![0u8; 40]);
    let w = iso_dir_walk(&data);
    assert!(!w.malformed);
    assert_eq!(w.records.len(), 4);
    assert_eq!((w.records[2].lba, w.records[2].size, w.records[2].flags), (20, 2048, 2));
    assert_eq!(find_child(&w, "efi"), Ok(Some(2)));
    assert_eq!(find_child(&w, "boot.cat"), Ok(Some(3)));
    assert_eq!(find_child(&w, "nope"), Ok(None));
    assert_eq!(record_action(&w.records[0]), RecordAction::Skip);
    assert_eq!(record_action(&w.records[2]), RecordAction::Dir);
    assert_eq!(record_action(&w.records[3]), RecordAction::File);
    assert_eq!(record_name(&w.records[3].name), "BOOT.CAT");
}

#[test]
fn iso9660_malformed_record_stops_walk() {
    let mut data = iso_record(b"A", 0, 1, 1);
    data.extend_from_slice(&[20u8; 20]);
    let w = iso_dir_walk(&data);
    assert!(w.malformed);
    assert_eq!(w.records.len(), 1);
    assert_eq!(find_child(&w, "a"), Ok(Some(0)));
    assert_eq!(find_child(&w, "b"), Err(IsoError::Malformed));
}

#[test]
fn iso9660_primary_volume_root() {
    let mut pvd = vec![0u8; 2048];
    assert_eq!(pvd_root(&pvd), None);
    pvd[1..6].copy_from_slice(b"CD001");
    pvd[158..162].copy_from_slice(&18u32.to_le_bytes());
    pvd[166..170].copy_from_slice(&2048u32.to_le_bytes());
    assert_eq!(pvd_root(&pvd), Some((18, 2048)));
}

#[test]
fn dirty_pages_become_row_bands() {
    let mut fb = vec![0u8; 3 * 4096];
    fb[2 * 4096] = 0xFF;
    let rects = dirty_page_rects(&[0b101], &fb, 1024);
    assert_eq!(rects.len(), 2);
    assert_eq!((rects[0].x, rects[0].y, rects[0].w, rects[0].h), (0, 0, 1024, 1));
    assert_eq!((rects[1].x, rects[1].y, rects[1].w, rects[1].h), (0, 2, 1024, 1));
    assert!(rects[1].data.starts_with("/w"));
    assert_eq!(rects[0].data.len(), 5464);
    let short = vec![0u8; 2 * 4096];
    assert_eq!(dirty_page_rects(&[0b101], &short, 1024).len(), 1);
    assert!(dirty_page_rects(&[0x100], &fb, 1024).is_empty());
}

#[test]
fn rfb_client_messages() {
    assert_eq!(&protocol_version(), b"RFB 003.008\n");
    assert_eq!(choose_security(&[2, 1]), 1);
    assert_eq!(choose_security(&[2, 16]), 2);
    assert_eq!(set_encodings_raw(), [2, 0, 0, 1, 0, 0, 0, 0]);
    assert_eq!(update_request(true, 1024, 768), vec![3, 1, 0, 0, 0, 0, 4, 0, 3, 0]);
    assert_eq!(update_request(false, 0x12345, 1), vec![3, 0, 0, 0, 0, 0, 0x23, 0x45, 0, 1]);
    assert_eq!(key_event(0xFF0D, true), [4, 1, 0, 0, 0, 0, 0xFF, 0x0D]);
    assert_eq!(key_event(0x61, false), [4, 0, 0, 0, 0, 0, 0, 0x61]);
    assert_eq!(pointer_event(300, -5, 1), [5, 1, 1, 44, 0, 0]);
    assert_eq!(pointer_event(70000, 2, 0), [5, 0, 0x11, 0x70, 0, 2]);
}

#[test]
fn rfb_server_messages() {
    let mut sinit = [0u8; 24];
    sinit[0..2].copy_from_slice(&1280u16.to_be_bytes());
    sinit[2..4].copy_from_slice(&800u16.to_be_bytes());
    sinit[20..24].copy_from_slice(&7u32.to_be_bytes());
    let s = parse_server_init(&sinit);
    assert_eq!((s.width, s.height, s.name_len), (1280, 800, 7));
    let hdr = [0, 10, 0, 20, 1, 0, 0, 2, 0, 0, 0, 0];
    let r = parse_rect_header(&hdr);
    assert_eq!((r.x, r.y, r.w, r.h, r.encoding), (10, 20, 256, 2, 0));
    let cursor = [0, 0, 0, 0, 0, 0, 0, 0, 0xFF, 0xFF, 0xFF, 0x11];
    assert_eq!(parse_rect_header(&cursor).encoding, -239);
}

#[test]
fn rfb_pixels_become_rgba() {
    let mut p = vec![1, 2, 3, 0, 10, 20, 30, 0, 7];
    bgrx_to_rgba(&mut p);
    assert_eq!(p, vec![3, 2, 1, 255, 30, 20, 10, 255, 7]);
}

#[test]
fn pointer_buttons_press_release_and_wheel() {
    let mut s = PointerState::new();
    assert_eq!(s.apply(5, 6, 0x81), vec![PointerEvent { x: 5, y: 6, buttons: 1 }]);
    assert_eq!(s.apply(7, 8, 0x84), vec![PointerEvent { x: 7, y: 8, buttons: 5 }]);
    assert_eq!(s.apply(7, 8, 0), vec![PointerEvent { x: 7, y: 8, buttons: 5 }]);
    assert_eq!(s.apply(1, -1, 0x08), vec![
        PointerEvent { x: 0, y: 0, buttons: 13 },
        PointerEvent { x: 0, y: 0, buttons: 5 },
    ]);
    assert_eq!(s.apply(0, 1, 0x08)[0].buttons, 21);
    assert!(s.apply(0, 0, 0x08).is_empty());
    assert_eq!(s.apply(9, 9, 0x41), vec![PointerEvent { x: 9, y: 9, buttons: 4 }]);
    assert_eq!(s.apply(9, 9, 0x44)[0].buttons, 0);
    assert_eq!(s.button_mask, 0);
}

#[test]
fn vm_state_after_polls() {
    assert_eq!(polled_state(VmState::Starting, true, false), VmState::Error);
    assert_eq!(polled_state(VmState::Running, true, true), VmState::Error);
    assert_eq!(polled_state(VmState::Starting, false, true), VmState::Running);
    assert_eq!(polled_state(VmState::Starting, false, false), VmState::Starting);
    assert_eq!(polled_state(VmState::Stopped, true, true), VmState::Stopped);
    assert_eq!(state_after_frame(VmState::Starting, true), VmState::Running);
    assert_eq!(state_after_frame(VmState::Starting, false), VmState::Starting);
    assert_eq!(state_after_frame(VmState::Paused, true), VmState::Paused);
}

#[test]
fn rfb_server_message_framing() {
    assert_eq!(server_message(0), ServerMessage::FramebufferUpdate);
    assert_eq!(server_message(2), ServerMessage::SetColourMapEntries);
    assert_eq!(server_message(3), ServerMessage::Bell);
    assert_eq!(server_message(4), ServerMessage::ServerCutText);
    assert_eq!(server_message(9), ServerMessage::Unknown(9));
    assert_eq!(update_rect_count(&[0, 1, 2]), 258);
    let r = parse_rect_header(&[0, 0, 0, 0, 0, 3, 0, 2, 0, 0, 0, 0]);
    assert_eq!(rect_data_len(&r), 24);
    assert_eq!(colour_map_len(&[1, 0, 0, 0, 2]), 12);
    assert_eq!(cut_text_len(&[0, 0, 0, 0, 1, 0, 5]), 65541);
}
