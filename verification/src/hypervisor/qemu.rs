//! The QEMU command line of the fallback backend.
//!
//! What the host offers (firmware files, an extracted EFI system partition,
//! whether the extra disk exists, the accelerator) is found out by the caller
//! and handed in as a `QemuHost`; from it and the machine's configuration the
//! argument list is a pure function.

use vstd::prelude::*;
use crate::hypervisor::{BootMode, MachineConfig, PortForward};
use crate::hypervisor::boot::{BootImage, effective_boot_mode, effective_boot_mode_spec};
use crate::text::{TextBuf, decimal_chars, str_eq};

verus! {

/// The UEFI firmware found on the host.
pub enum Firmware {
    /// Separate code and per-machine variable store images.
    Split { code: String, vars: String },
    /// One combined image.
    Combined(String),
    /// None found.
    Missing,
}

/// What the host offers a machine about to start.
pub struct QemuHost {
    /// VNC port (5900 and up).
    pub vnc_port: u16,
    /// TCP port of the agent channel.
    pub agent_port: u16,
    /// What the boot image turned out to be.
    pub image: BootImage,
    /// The boot image's extension, lowercased.
    pub image_ext: String,
    /// UEFI firmware, looked up when the machine boots UEFI.
    pub firmware: Firmware,
    /// The directory holding the boot image's EFI system partition, when it
    /// could be extracted.
    pub esp_dir: Option<String>,
    /// Whether the machine's extra disk image exists.
    pub disk_exists: bool,
    /// The `-accel` value for this host, if any.
    pub accel: Option<String>,
}

pub open spec fn strs_view(s: Seq<String>) -> Seq<Seq<char>> {
    Seq::new(s.len(), |i: int| s[i]@)
}

proof fn lemma_strs_view_push(s: Seq<String>, x: String)
    ensures
        strs_view(s.push(x)) == strs_view(s).push(x@),
{
    assert(strs_view(s.push(x)) =~= strs_view(s).push(x@));
}

/// Machine type, CPU, memory, CPUs, no local display, VNC on the loopback
/// interface, standard VGA, and no reboot.
pub open spec fn base_args(ram_mb: u64, cpus: u32, display: int) -> Seq<Seq<char>> {
    seq![
        "-machine"@,
        "q35"@,
        "-cpu"@,
        "max"@,
        "-m"@,
        decimal_chars(ram_mb as nat),
        "-smp"@,
        decimal_chars(cpus as nat),
        "-display"@,
        "none"@,
        "-vnc"@,
        "127.0.0.1:"@ + decimal_chars(display as nat),
        "-vga"@,
        "std"@,
        "-no-reboot"@,
    ]
}

/// The agent channel: a virtio-serial port on a TCP socket QEMU listens on.
pub open spec fn agent_args(port: u16) -> Seq<Seq<char>> {
    seq![
        "-device"@,
        "virtio-serial-pci,id=vser0"@,
        "-chardev"@,
        "socket,id=agent0,host=127.0.0.1,port="@ + decimal_chars(port as nat)
            + ",server=on,wait=off"@,
        "-device"@,
        "virtserialport,bus=vser0.0,chardev=agent0,name=foo.knofoo.agent"@,
    ]
}

/// Firmware flags: only for UEFI, from what was found.
pub open spec fn firmware_args(mode: BootMode, fw: Firmware) -> Seq<Seq<char>> {
    if mode == BootMode::Uefi {
        match fw {
            Firmware::Split { code, vars } => seq![
                "-drive"@,
                "if=pflash,format=raw,unit=0,readonly=on,file="@ + code@,
                "-drive"@,
                "if=pflash,format=raw,unit=1,file="@ + vars@,
            ],
            Firmware::Combined(p) => seq!["-bios"@, p@],
            Firmware::Missing => Seq::empty(),
        }
    } else {
        Seq::empty()
    }
}

/// USB tablet and an entropy source.
pub open spec fn common_args() -> Seq<Seq<char>> {
    seq![
        "-device"@,
        "qemu-xhci,id=xhci"@,
        "-device"@,
        "usb-tablet,bus=xhci.0"@,
        "-device"@,
        "virtio-rng-pci"@,
    ]
}

/// The boot image: under UEFI as CD-ROM behind its extracted EFI partition
/// (or booted from the CD-ROM when there is none), under BIOS as the boot
/// CD-ROM, or as the first virtio disk (qcow2 or raw by extension).
pub open spec fn media_args(iso: Option<String>, mode: BootMode, esp: Option<String>, ext: Seq<char>) -> Seq<Seq<char>> {
    match iso {
        None => Seq::empty(),
        Some(p) => if mode == BootMode::Uefi {
            (match esp {
                Some(d) => seq!["-drive"@, "format=raw,file=fat:rw:"@ + d@],
                None => Seq::empty(),
            }) + seq!["-cdrom"@, p@] + (if esp is None {
                seq!["-boot"@, "d"@]
            } else {
                Seq::empty()
            })
        } else if mode == BootMode::Disk {
            seq![
                "-drive"@,
                "file="@ + p@ + ",format="@ + (if ext == "qcow2"@ {
                    "qcow2"@
                } else {
                    "raw"@
                }) + ",if=virtio,index=0,media=disk"@,
            ]
        } else {
            seq!["-cdrom"@, p@, "-boot"@, "d"@]
        },
    }
}

/// The extra disk, when configured and present.
pub open spec fn disk_args(disk: Seq<char>, exists: bool) -> Seq<Seq<char>> {
    if disk.len() > 0 && exists {
        seq!["-drive"@, "file="@ + disk + ",format=raw,if=virtio"@]
    } else {
        Seq::empty()
    }
}

/// The shared folder, exported over 9P with tag `workspace`.
pub open spec fn virtfs_args(shared: Option<String>) -> Seq<Seq<char>> {
    match shared {
        Some(s) => seq![
            "-virtfs"@,
            "local,path="@ + s@ + ",mount_tag=workspace,security_model=mapped-xattr,id=fsdev0"@,
        ],
        None => Seq::empty(),
    }
}

/// The `hostfwd` options of the port forwards.
pub open spec fn hostfwds(pfs: Seq<PortForward>) -> Seq<char>
    decreases pfs.len(),
{
    if pfs.len() == 0 {
        Seq::empty()
    } else {
        let pf = pfs.last();
        hostfwds(pfs.drop_last()) + ",hostfwd="@ + pf.proto@ + "::"@ + decimal_chars(pf.host as nat)
            + "-:"@ + decimal_chars(pf.guest as nat)
    }
}

/// One port forward as QEMU's user networking takes it:
/// `,hostfwd=<proto>::<host port>-:<guest port>`.
pub open spec fn hostfwd_option(pf: PortForward) -> Seq<char> {
    ",hostfwd="@ + pf.proto@ + "::"@ + decimal_chars(pf.host as nat) + "-:"@ + decimal_chars(
        pf.guest as nat,
    )
}

/// The total length of the options of `pfs`.
pub open spec fn hostfwd_options_len(pfs: Seq<PortForward>) -> int
    decreases pfs.len(),
{
    if pfs.len() == 0 {
        0
    } else {
        hostfwd_options_len(pfs.drop_last()) + hostfwd_option(pfs.last()).len()
    }
}

proof fn lemma_options_len_step(pfs: Seq<PortForward>, i: int)
    requires
        0 <= i < pfs.len(),
    ensures
        hostfwd_options_len(pfs.take(i + 1)) == hostfwd_options_len(pfs.take(i)) + hostfwd_option(
            pfs[i],
        ).len(),
{
    assert(pfs.take(i + 1).drop_last() =~= pfs.take(i));
    assert(pfs.take(i + 1).last() == pfs[i]);
}

proof fn lemma_options_len_nonneg(pfs: Seq<PortForward>)
    ensures
        hostfwd_options_len(pfs) >= 0,
    decreases pfs.len(),
{
    if pfs.len() > 0 {
        lemma_options_len_nonneg(pfs.drop_last());
    }
}

proof fn lemma_hostfwds_last(pfs: Seq<PortForward>)
    requires
        pfs.len() > 0,
    ensures
        hostfwds(pfs) == hostfwds(pfs.drop_last()) + hostfwd_option(pfs.last()),
{
    assert(hostfwds(pfs) =~= hostfwds(pfs.drop_last()) + hostfwd_option(pfs.last()));
}

/// Option `i` of `pfs` stands in `h` after the options before it.
pub open spec fn option_in_place(h: Seq<char>, pfs: Seq<PortForward>, i: int) -> bool {
    &&& 0 <= hostfwd_options_len(pfs.take(i))
    &&& hostfwd_options_len(pfs.take(i + 1)) <= hostfwd_options_len(pfs)
    &&& h.subrange(hostfwd_options_len(pfs.take(i)), hostfwd_options_len(pfs.take(i + 1)))
        == hostfwd_option(pfs[i])
}

proof fn lemma_option_kept(h: Seq<char>, o: Seq<char>, pfs: Seq<PortForward>, i: int)
    requires
        pfs.len() > 0,
        0 <= i < pfs.len() - 1,
        h.len() == hostfwd_options_len(pfs.drop_last()),
        option_in_place(h, pfs.drop_last(), i),
    ensures
        option_in_place(h + o, pfs, i),
{
    let d = pfs.drop_last();
    assert(pfs.take(i) =~= d.take(i));
    assert(pfs.take(i + 1) =~= d.take(i + 1));
    assert(pfs[i] == d[i]);
    lemma_options_len_nonneg(d);
    let lo = hostfwd_options_len(d.take(i));
    let hi = hostfwd_options_len(d.take(i + 1));
    lemma_options_len_step(d, i);
    assert(option_in_place(h, d, i));
    assert(0 <= lo <= hi <= h.len());
    assert(hostfwd_options_len(pfs) >= hostfwd_options_len(d));
    assert((h + o).subrange(lo, hi) =~= h.subrange(lo, hi));
}

proof fn lemma_option_last(h: Seq<char>, pfs: Seq<PortForward>)
    requires
        pfs.len() > 0,
        h.len() == hostfwd_options_len(pfs.drop_last()),
    ensures
        option_in_place(h + hostfwd_option(pfs.last()), pfs, pfs.len() - 1),
{
    let n = pfs.len() - 1;
    let o = hostfwd_option(pfs.last());
    assert(pfs.take(n) =~= pfs.drop_last());
    assert(pfs.take(n + 1) =~= pfs);
    lemma_options_len_nonneg(pfs.drop_last());
    assert((h + o).subrange(h.len() as int, (h + o).len() as int) =~= o);
}

/// Where each option sits in `hostfwds(pfs)`.
proof fn lemma_hostfwds_layout(pfs: Seq<PortForward>)
    ensures
        hostfwds(pfs).len() == hostfwd_options_len(pfs),
        forall|i: int| 0 <= i < pfs.len() ==> #[trigger] option_in_place(hostfwds(pfs), pfs, i),
    decreases pfs.len(),
{
    if pfs.len() > 0 {
        let d = pfs.drop_last();
        lemma_hostfwds_layout(d);
        lemma_hostfwds_last(pfs);
        let o = hostfwd_option(pfs.last());
        assert forall|i: int| 0 <= i < pfs.len() implies #[trigger] option_in_place(hostfwds(pfs), pfs, i) by {
            if i < pfs.len() - 1 {
                assert(option_in_place(hostfwds(d), d, i));
                lemma_option_kept(hostfwds(d), o, pfs, i);
            } else {
                lemma_option_last(hostfwds(d), pfs);
            }
        }
    }
}

proof fn lemma_subrange_after_prefix(p: Seq<char>, h: Seq<char>, lo: int, hi: int)
    requires
        0 <= lo <= hi <= h.len(),
    ensures
        (p + h).subrange(p.len() + lo, p.len() + hi) == h.subrange(lo, hi),
{
    assert((p + h).subrange(p.len() + lo, p.len() + hi) =~= h.subrange(lo, hi));
}

/// Every configured port forward reaches QEMU: with internet access on, the
/// `-netdev` value is `user,id=net0` followed by one
/// `,hostfwd=<proto>::<host>-:<guest>` option per port forward, each in its
/// place and in the configured order, and nothing else.
pub proof fn lemma_every_port_forward_is_passed(pfs: Seq<PortForward>)
    ensures
        ({
            let args = net_args(true, pfs);
            let netdev = args[1];
            &&& args.len() == 4
            &&& args[0] == "-netdev"@
            &&& netdev.len() == 12 + hostfwd_options_len(pfs)
            &&& netdev.subrange(0, 12) == "user,id=net0"@
            &&& forall|i: int|
                0 <= i < pfs.len() ==> netdev.subrange(
                    12 + hostfwd_options_len(pfs.take(i)),
                    12 + hostfwd_options_len(pfs.take(i + 1)),
                ) == hostfwd_option(#[trigger] pfs[i])
        }),
{
    let user = "user,id=net0"@;
    reveal_strlit("user,id=net0");
    assert(user.len() == 12);
    lemma_hostfwds_layout(pfs);
    let h = hostfwds(pfs);
    let netdev = user + h;
    assert(net_args(true, pfs)[1] == netdev);
    assert(netdev.subrange(0, 12) =~= user);
    assert forall|i: int| 0 <= i < pfs.len() implies netdev.subrange(
        12 + hostfwd_options_len(pfs.take(i)),
        12 + hostfwd_options_len(pfs.take(i + 1)),
    ) == hostfwd_option(#[trigger] pfs[i]) by {
        assert(option_in_place(h, pfs, i));
        lemma_options_len_step(pfs, i);
        lemma_subrange_after_prefix(user, h, hostfwd_options_len(pfs.take(i)), hostfwd_options_len(pfs.take(i + 1)));
    }
}

/// User-mode networking with the port forwards, or no NIC at all.
pub open spec fn net_args(internet: bool, pfs: Seq<PortForward>) -> Seq<Seq<char>> {
    if internet {
        seq!["-netdev"@, "user,id=net0"@ + hostfwds(pfs), "-device"@, "virtio-net-pci,netdev=net0"@]
    } else {
        seq!["-nic"@, "none"@]
    }
}

pub open spec fn accel_args(accel: Option<String>) -> Seq<Seq<char>> {
    match accel {
        Some(a) => seq!["-accel"@, a@],
        None => Seq::empty(),
    }
}

/// The whole command line.
pub open spec fn qemu_args(c: MachineConfig, h: QemuHost) -> Seq<Seq<char>> {
    let mode = effective_boot_mode_spec(c.boot_mode, h.image);
    base_args(c.ram_mb, c.cpus, h.vnc_port - 5900) + agent_args(h.agent_port) + firmware_args(
        mode,
        h.firmware,
    ) + common_args() + media_args(c.iso_path, mode, h.esp_dir, h.image_ext@) + disk_args(
        c.disk_path@,
        h.disk_exists,
    ) + virtfs_args(c.shared_folder) + net_args(c.network.internet, c.network.port_forwards@)
        + accel_args(h.accel)
}

fn push_arg(args: &mut Vec<String>, a: String)
    ensures
        strs_view(final(args)@) == strs_view(old(args)@).push(a@),
{
    let ghost before = args@;
    args.push(a);
    proof {
        lemma_strs_view_push(before, args@.last());
        assert(args@ =~= before.push(args@.last()));
    }
}

fn push_lit(args: &mut Vec<String>, a: &str)
    ensures
        strs_view(final(args)@) == strs_view(old(args)@).push(a@),
{
    push_arg(args, a.to_owned());
}

/// `prefix` followed by the decimal digits of `n`, then `suffix`.
fn numbered(prefix: &str, n: u64, suffix: &str) -> (r: String)
    ensures
        r@ == prefix@ + decimal_chars(n as nat) + suffix@,
{
    let mut t = TextBuf::new();
    t.push_str(prefix);
    t.push_decimal(n);
    t.push_str(suffix);
    t.into_string()
}

/// `a` followed by `b`.
fn joined(a: &str, b: &str) -> (r: String)
    ensures
        r@ == a@ + b@,
{
    let mut t = TextBuf::new();
    t.push_str(a);
    t.push_str(b);
    t.into_string()
}

fn push_base_args(args: &mut Vec<String>, ram_mb: u64, cpus: u32, display: u16)
    ensures
        strs_view(final(args)@) == strs_view(old(args)@) + base_args(ram_mb, cpus, display as int),
{
    push_lit(args, "-machine");
    push_lit(args, "q35");
    push_lit(args, "-cpu");
    push_lit(args, "max");
    push_lit(args, "-m");
    push_arg(args, numbered("", ram_mb, ""));
    push_lit(args, "-smp");
    push_arg(args, numbered("", cpus as u64, ""));
    push_lit(args, "-display");
    push_lit(args, "none");
    push_lit(args, "-vnc");
    push_arg(args, numbered("127.0.0.1:", display as u64, ""));
    push_lit(args, "-vga");
    push_lit(args, "std");
    push_lit(args, "-no-reboot");
    proof {
        reveal_strlit("");
    }
    assert(strs_view(final(args)@) =~= strs_view(old(args)@) + base_args(ram_mb, cpus, display as int));
}

fn push_agent_args(args: &mut Vec<String>, port: u16)
    ensures
        strs_view(final(args)@) == strs_view(old(args)@) + agent_args(port),
{
    push_lit(args, "-device");
    push_lit(args, "virtio-serial-pci,id=vser0");
    push_lit(args, "-chardev");
    push_arg(args, numbered("socket,id=agent0,host=127.0.0.1,port=", port as u64, ",server=on,wait=off"));
    push_lit(args, "-device");
    push_lit(args, "virtserialport,bus=vser0.0,chardev=agent0,name=foo.knofoo.agent");
    assert(strs_view(final(args)@) =~= strs_view(old(args)@) + agent_args(port));
}

fn push_firmware_args(args: &mut Vec<String>, mode: BootMode, fw: &Firmware)
    ensures
        strs_view(final(args)@) == strs_view(old(args)@) + firmware_args(mode, *fw),
{
    if mode == BootMode::Uefi {
        match fw {
            Firmware::Split { code, vars } => {
                push_lit(args, "-drive");
                push_arg(args, joined("if=pflash,format=raw,unit=0,readonly=on,file=", code.as_str()));
                push_lit(args, "-drive");
                push_arg(args, joined("if=pflash,format=raw,unit=1,file=", vars.as_str()));
            },
            Firmware::Combined(p) => {
                push_lit(args, "-bios");
                push_lit(args, p.as_str());
            },
            Firmware::Missing => {},
        }
    }
    assert(strs_view(final(args)@) =~= strs_view(old(args)@) + firmware_args(mode, *fw));
}

fn push_common_args(args: &mut Vec<String>)
    ensures
        strs_view(final(args)@) == strs_view(old(args)@) + common_args(),
{
    push_lit(args, "-device");
    push_lit(args, "qemu-xhci,id=xhci");
    push_lit(args, "-device");
    push_lit(args, "usb-tablet,bus=xhci.0");
    push_lit(args, "-device");
    push_lit(args, "virtio-rng-pci");
    assert(strs_view(final(args)@) =~= strs_view(old(args)@) + common_args());
}

fn push_media_args(args: &mut Vec<String>, iso: &Option<String>, mode: BootMode, esp: &Option<String>, ext: &str)
    ensures
        strs_view(final(args)@) == strs_view(old(args)@) + media_args(*iso, mode, *esp, ext@),
{
    match iso {
        None => {},
        Some(p) => {
            if mode == BootMode::Uefi {
                match esp {
                    Some(d) => {
                        push_lit(args, "-drive");
                        push_arg(args, joined("format=raw,file=fat:rw:", d.as_str()));
                    },
                    None => {},
                }
                push_lit(args, "-cdrom");
                push_lit(args, p.as_str());
                if esp.is_none() {
                    push_lit(args, "-boot");
                    push_lit(args, "d");
                }
            } else if mode == BootMode::Disk {
                let fmt = if str_eq(ext, "qcow2") {
                    "qcow2"
                } else {
                    "raw"
                };
                let mut t = TextBuf::new();
                t.push_str("file=");
                t.push_str(p.as_str());
                t.push_str(",format=");
                t.push_str(fmt);
                t.push_str(",if=virtio,index=0,media=disk");
                push_lit(args, "-drive");
                push_arg(args, t.into_string());
            } else {
                push_lit(args, "-cdrom");
                push_lit(args, p.as_str());
                push_lit(args, "-boot");
                push_lit(args, "d");
            }
        },
    }
    assert(strs_view(final(args)@) =~= strs_view(old(args)@) + media_args(*iso, mode, *esp, ext@));
}

fn push_disk_args(args: &mut Vec<String>, disk: &str, exists: bool)
    ensures
        strs_view(final(args)@) == strs_view(old(args)@) + disk_args(disk@, exists),
{
    if !disk.is_empty() && exists {
        let mut t = TextBuf::new();
        t.push_str("file=");
        t.push_str(disk);
        t.push_str(",format=raw,if=virtio");
        push_lit(args, "-drive");
        push_arg(args, t.into_string());
    }
    assert(strs_view(final(args)@) =~= strs_view(old(args)@) + disk_args(disk@, exists));
}

fn push_virtfs_args(args: &mut Vec<String>, shared: &Option<String>)
    ensures
        strs_view(final(args)@) == strs_view(old(args)@) + virtfs_args(*shared),
{
    match shared {
        Some(s) => {
            let mut t = TextBuf::new();
            t.push_str("local,path=");
            t.push_str(s.as_str());
            t.push_str(",mount_tag=workspace,security_model=mapped-xattr,id=fsdev0");
            push_lit(args, "-virtfs");
            push_arg(args, t.into_string());
        },
        None => {},
    }
    assert(strs_view(final(args)@) =~= strs_view(old(args)@) + virtfs_args(*shared));
}

fn netdev_string(pfs: &Vec<PortForward>) -> (r: String)
    ensures
        r@ == "user,id=net0"@ + hostfwds(pfs@),
{
    let mut t = TextBuf::new();
    t.push_str("user,id=net0");
    let mut i: usize = 0;
    while i < pfs.len()
        invariant
            i <= pfs@.len(),
            t.wf(),
            t@ == "user,id=net0"@ + hostfwds(pfs@.subrange(0, i as int)),
        decreases pfs@.len() - i,
    {
        let pf = &pfs[i];
        t.push_str(",hostfwd=");
        t.push_str(pf.proto.as_str());
        t.push_str("::");
        t.push_decimal(pf.host as u64);
        t.push_str("-:");
        t.push_decimal(pf.guest as u64);
        proof {
            let s = pfs@.subrange(0, i + 1);
            assert(s.drop_last() =~= pfs@.subrange(0, i as int));
            assert(s.last() == pfs@[i as int]);
        }
        i = i + 1;
        assert(t@ =~= "user,id=net0"@ + hostfwds(pfs@.subrange(0, i as int)));
    }
    assert(pfs@.subrange(0, pfs@.len() as int) =~= pfs@);
    t.into_string()
}

fn push_net_args(args: &mut Vec<String>, internet: bool, pfs: &Vec<PortForward>)
    ensures
        strs_view(final(args)@) == strs_view(old(args)@) + net_args(internet, pfs@),
{
    if internet {
        let netdev = netdev_string(pfs);
        push_lit(args, "-netdev");
        push_arg(args, netdev);
        push_lit(args, "-device");
        push_lit(args, "virtio-net-pci,netdev=net0");
    } else {
        push_lit(args, "-nic");
        push_lit(args, "none");
    }
    assert(strs_view(final(args)@) =~= strs_view(old(args)@) + net_args(internet, pfs@));
}

/// The QEMU command line for machine `c` on host `h`.
pub fn build_args(c: &MachineConfig, h: &QemuHost) -> (args: Vec<String>)
    requires
        h.vnc_port >= 5900,
    ensures
        strs_view(args@) == qemu_args(*c, *h),
{
    let mode = effective_boot_mode(c.boot_mode, h.image);
    let mut args: Vec<String> = Vec::new();
    let ghost v0 = strs_view(args@);
    push_base_args(&mut args, c.ram_mb, c.cpus, h.vnc_port - 5900);
    let ghost v1 = strs_view(args@);
    push_agent_args(&mut args, h.agent_port);
    let ghost v2 = strs_view(args@);
    push_firmware_args(&mut args, mode, &h.firmware);
    let ghost v3 = strs_view(args@);
    push_common_args(&mut args);
    let ghost v4 = strs_view(args@);
    push_media_args(&mut args, &c.iso_path, mode, &h.esp_dir, h.image_ext.as_str());
    let ghost v5 = strs_view(args@);
    push_disk_args(&mut args, c.disk_path.as_str(), h.disk_exists);
    let ghost v6 = strs_view(args@);
    push_virtfs_args(&mut args, &c.shared_folder);
    let ghost v7 = strs_view(args@);
    push_net_args(&mut args, c.network.internet, &c.network.port_forwards);
    let ghost v8 = strs_view(args@);
    match &h.accel {
        Some(a) => {
            push_lit(&mut args, "-accel");
            push_lit(&mut args, a.as_str());
        },
        None => {},
    }
    proof {
        assert(v0 =~= Seq::<Seq<char>>::empty());
        assert(strs_view(args@) =~= v8 + accel_args(h.accel));
        assert(strs_view(args@) =~= qemu_args(*c, *h));
    }
    args
}

} // verus!
