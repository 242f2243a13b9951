//! Where a frame that a guest sends on one of its NICs goes: answered at
//! once by the DHCP server, handed to the DNS forwarder, or passed on (to
//! the switch for the LAN NIC, to the NAT stack for the other).

use vstd::prelude::*;
use crate::net::dhcp::{DhcpServer, dhcp_reply_type, reply_chaddr};
use crate::net::dns::{DnsForwarder, DnsQuery, is_dns_query};

verus! {

/// The two NICs of a machine.
#[derive(Clone, Copy, Debug, PartialEq, Eq, Structural)]
pub enum NicId {
    Lan,
    Nat,
}

/// What becomes of a frame the guest sent.
pub enum GuestRoute {
    /// The DHCP reply that goes back to the guest.
    Reply(Vec<u8>),
    /// A DNS query for the forwarder; its answer goes back to the guest.
    Dns(DnsQuery),
    /// Neither: the frame goes on.
    Pass,
}

/// DHCP is tried first, then DNS; anything else passes.
pub fn route_guest_frame(dhcp: &DhcpServer, dns: &DnsForwarder, frame: &[u8]) -> (r: GuestRoute)
    requires
        frame@.len() <= isize::MAX,
    ensures
        r is Reply <==> dhcp_reply_type(frame@) is Some,
        r matches GuestRoute::Reply(reply) ==> reply@ == dhcp@.reply_frame(
            frame@.subrange(46, 50),
            reply_chaddr(frame@),
            dhcp_reply_type(frame@)->0,
        ),
        r is Dns <==> dhcp_reply_type(frame@) is None && is_dns_query(frame@),
        r matches GuestRoute::Dns(q) ==> {
            &&& q.src_mac@ == frame@.subrange(6, 12)
            &&& q.src_ip@ == frame@.subrange(26, 30)
            &&& q.src_port as int == crate::bytes::be16_at(frame@, 34)
            &&& q.payload@ == frame@.subrange(42, 42 + crate::net::dns::dns_query_len(frame@))
        },
{
    match dhcp.handle(frame) {
        Some(reply) => GuestRoute::Reply(reply),
        None => match dns.extract_query(frame) {
            Some(q) => GuestRoute::Dns(q),
            None => GuestRoute::Pass,
        },
    }
}

} // verus!
