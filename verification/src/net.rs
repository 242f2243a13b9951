//! Virtual network services offered to guests.

pub mod ipv4;
pub mod dhcp;
pub mod dns;
pub mod mac;
pub mod switch;
pub mod port;
pub mod route;
