//! The machine model shared by all hypervisor backends: a VM's configuration,
//! its lifecycle states, framebuffer transfers, and the backend interface.

pub mod boot;
pub mod rfb;
pub mod qemu;
pub mod esp;
pub mod iso9660;
pub mod dirty;

use vstd::prelude::*;

verus! {

/// How a VM boots.
#[derive(PartialEq, Eq, Structural, Clone, Copy, Debug)]
pub enum BootMode {
    /// Decided from the boot image.
    Auto,
    Uefi,
    Bios,
    /// Boot the image as a hard disk.
    Disk,
}

impl Default for BootMode {
    fn default() -> (m: Self)
        ensures
            m == BootMode::Auto,
    {
        BootMode::Auto
    }
}

/// A port forwarded from the host to the guest.
#[derive(Clone, Debug)]
pub struct PortForward {
    pub host: u16,
    pub guest: u16,
    pub proto: String,
}

/// Which of a VM's two NICs are connected.
#[derive(Clone, Debug)]
pub struct NetworkConfig {
    pub lan: bool,
    pub internet: bool,
    pub port_forwards: Vec<PortForward>,
}

impl Default for NetworkConfig {
    fn default() -> (c: Self)
        ensures
            c.lan,
            c.internet,
            c.port_forwards@.len() == 0,
    {
        NetworkConfig { lan: true, internet: true, port_forwards: Vec::new() }
    }
}

#[derive(Clone, Debug)]
pub struct InputConfig {
    pub keyboard_passthrough: bool,
}

impl Default for InputConfig {
    fn default() -> (c: Self)
        ensures
            c.keyboard_passthrough,
    {
        InputConfig { keyboard_passthrough: true }
    }
}

/// Everything a backend needs to start a VM.
#[derive(Clone, Debug)]
pub struct MachineConfig {
    pub id: String,
    pub iso_path: Option<String>,
    pub disk_path: String,
    pub ram_mb: u64,
    pub cpus: u32,
    pub shared_folder: Option<String>,
    pub boot_mode: BootMode,
    pub network: NetworkConfig,
    pub input: InputConfig,
}

/// A full framebuffer: `data` is the base64 of its RGBA bytes, row-major.
#[derive(Clone, Debug)]
pub struct FrameSnapshot {
    pub w: u32,
    pub h: u32,
    pub data: String,
}

/// A changed rectangle of the framebuffer: `data` is the base64 of its RGBA
/// bytes, row-major.
#[derive(Clone, Debug)]
pub struct FrameRect {
    pub x: u32,
    pub y: u32,
    pub w: u32,
    pub h: u32,
    pub data: String,
}

/// A VM's lifecycle state.
#[derive(PartialEq, Eq, Structural, Clone, Copy, Debug)]
pub enum VmState {
    Stopped,
    Starting,
    Running,
    Paused,
    Error,
}

/// What the UI is told about a VM.
#[derive(Clone, Debug)]
pub struct VmStatus {
    pub id: String,
    pub state: VmState,
    pub width: u32,
    pub height: u32,
}

/// A hypervisor backend that runs one VM.
pub trait HvBackend: Send + Sync {
    fn start(&mut self, config: &MachineConfig) -> Result<(), String>;

    fn stop(&mut self) -> Result<(), String>;

    fn pause(&mut self) -> Result<(), String>;

    fn resume(&mut self) -> Result<(), String>;

    fn send_key(&mut self, keycode: u32, pressed: bool) -> Result<(), String>;

    fn send_mouse(&mut self, x: i32, y: i32, buttons: u8) -> Result<(), String>;

    fn send_serial(&mut self, data: &[u8]) -> Result<(), String>;

    fn recv_serial(&mut self) -> Option<Vec<u8>>;

    fn get_dirty_rects(&mut self) -> Vec<FrameRect>;

    /// The full framebuffer if it changed since the last call.
    fn get_frame(&mut self) -> Option<FrameSnapshot>;

    /// The framebuffer as `[w: u32 LE | h: u32 LE | rgba ...]` if it changed
    /// since the last call; empty when it did not. A backend that does not
    /// provide this gets the default, which never reports a frame.
    fn get_frame_bin(&mut self) -> (frame: Vec<u8>)
        default_ensures
            frame@ == Seq::<u8>::empty(),
    {
        Vec::new()
    }

    fn state(&mut self) -> VmState;

    fn framebuffer_size(&self) -> (u32, u32);
}

} // verus!
