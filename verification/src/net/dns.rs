//! The framing half of the guest DNS forwarder: recognising a query sent to
//! UDP port 53 and wrapping the upstream resolver's answer back into a frame
//! for the guest. Talking to the upstream resolver is the caller's part.

use vstd::prelude::*;
use crate::bytes::{be16_at, read_be16, copy_range};
use crate::net::ipv4::{plain_udp_frame, build_udp_frame};

verus! {

pub struct DnsForwarder {
    upstream: String,
}

/// A DNS query lifted out of a guest frame, with the guest's addresses that
/// the answer goes back to.
pub struct DnsQuery {
    pub src_mac: Vec<u8>,
    pub src_ip: Vec<u8>,
    pub src_port: u16,
    pub payload: Vec<u8>,
}

/// The MAC address the forwarder answers from.
pub open spec fn dns_server_mac() -> Seq<u8> {
    seq![0x52u8, 0x54, 0x00, 0xD0, 0x53, 0x01]
}

/// The address the forwarder answers from: the LAN gateway.
pub open spec fn dns_server_ip() -> Seq<u8> {
    seq![10u8, 0, 0, 1]
}

/// Length of the query payload that the UDP length field announces.
pub open spec fn dns_query_len(frame: Seq<u8>) -> int {
    if be16_at(frame, 38) >= 8 {
        be16_at(frame, 38) - 8
    } else {
        0
    }
}

/// Whether `frame` is an IPv4/UDP datagram to port 53 that holds the whole
/// payload its UDP header announces.
pub open spec fn is_dns_query(frame: Seq<u8>) -> bool {
    &&& frame.len() >= 42
    &&& be16_at(frame, 12) == 0x0800
    &&& frame[23] == 17
    &&& be16_at(frame, 36) == 53
    &&& frame.len() >= 42 + dns_query_len(frame)
}

impl DnsForwarder {
    /// The resolver address queries are forwarded to, such as `8.8.8.8:53`.
    pub closed spec fn upstream_spec(&self) -> Seq<char> {
        self.upstream@
    }

    pub fn new(upstream: &str) -> (f: Self)
        ensures
            f.upstream_spec() == upstream@,
    {
        DnsForwarder { upstream: upstream.to_owned() }
    }

    /// A forwarder to Google's public resolver.
    pub fn default() -> (f: Self)
        ensures
            f.upstream_spec() == "8.8.8.8:53"@,
    {
        Self::new("8.8.8.8:53")
    }

    /// The resolver address queries are forwarded to.
    pub fn upstream(&self) -> (s: &str)
        ensures
            s@ == self.upstream_spec(),
    {
        self.upstream.as_str()
    }

    /// Lifts the DNS query out of a guest frame; `None` when the frame is not
    /// a DNS query.
    pub fn extract_query(&self, frame: &[u8]) -> (q: Option<DnsQuery>)
        ensures
            q is Some <==> is_dns_query(frame@),
            q matches Some(q) ==> {
                &&& q.src_mac@ == frame@.subrange(6, 12)
                &&& q.src_ip@ == frame@.subrange(26, 30)
                &&& q.src_port as int == be16_at(frame@, 34)
                &&& q.payload@ == frame@.subrange(42, 42 + dns_query_len(frame@))
            },
    {
        if frame.len() < 42 {
            return None;
        }
        if read_be16(frame, 12) != 0x0800 {
            return None;
        }
        if frame[23] != 17 {
            return None;
        }
        if read_be16(frame, 36) != 53 {
            return None;
        }
        let udp_len = read_be16(frame, 38) as usize;
        let q_len: usize = if udp_len >= 8 {
            udp_len - 8
        } else {
            0
        };
        if frame.len() < 42 + q_len {
            return None;
        }
        let src_mac = copy_range(frame, 6, 12);
        let src_ip = copy_range(frame, 26, 30);
        let src_port = read_be16(frame, 34);
        let payload = copy_range(frame, 42, 42 + q_len);
        Some(DnsQuery { src_mac, src_ip, src_port, payload })
    }

    /// Wraps an answer from the upstream resolver into a frame for the guest,
    /// sent from the gateway's UDP port 53 to the guest's address and port.
    /// The IPv4 checksum field is left zero.
    pub fn wrap_udp_response(&self, payload: &[u8], dst_mac: &[u8], dst_ip: &[u8], dst_port: u16) -> (pkt: Vec<u8>)
        requires
            dst_mac@.len() >= 6,
            dst_ip@.len() >= 4,
            payload@.len() + 28 <= 0xFFFF,
        ensures
            pkt@ == plain_udp_frame(
                dst_mac@.subrange(0, 6),
                dns_server_mac(),
                dns_server_ip(),
                dst_ip@.subrange(0, 4),
                53,
                dst_port as int,
                payload@,
            ),
    {
        let server_mac: [u8; 6] = [0x52, 0x54, 0x00, 0xD0, 0x53, 0x01];
        let server_ip: [u8; 4] = [10, 0, 0, 1];
        assert(server_mac@ =~= dns_server_mac());
        assert(server_ip@ =~= dns_server_ip());
        let mac = copy_range(dst_mac, 0, 6);
        let ip = copy_range(dst_ip, 0, 4);
        build_udp_frame(
            mac.as_slice(),
            &server_mac,
            &server_ip,
            ip.as_slice(),
            53,
            dst_port,
            payload,
            false,
        )
    }
}

} // verus!
