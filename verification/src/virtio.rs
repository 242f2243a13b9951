//! Paravirtual devices: serial agent channel, framebuffer, input, NICs, 9P.

pub mod serial;
pub mod gpu;
pub mod input;
pub mod net;
pub mod p9;
