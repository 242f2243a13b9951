//! Core logic of a small desktop virtual-machine manager: the virtual network
//! services a guest sees (DHCP, DNS framing, an L2 switch), the paravirtual
//! devices' protocol state (serial, GPU framebuffer, input, 9P), and the
//! hypervisor-independent parts of the machine model.

pub mod b64;
pub mod bytes;
pub mod seqs;
pub mod hypervisor;
pub mod net;
pub mod text;
pub mod virtio;
pub mod vault;
pub mod machine;
pub mod events;
pub mod listing;

