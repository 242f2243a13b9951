//! A tiny DHCP server for the LAN (eth0) and NAT (eth1) interfaces.
//! It answers DHCPDISCOVER with an OFFER and DHCPREQUEST with an ACK, handing
//! out deterministic addresses:
//!
//! - LAN: `10.0.{graph}.{vm}/24`, gateway and DNS `10.0.{graph}.1`
//! - NAT: `10.1.{vm}.2/24`, gateway `10.1.{vm}.1`, DNS `8.8.8.8`

use vstd::prelude::*;
use crate::bytes::{be16_at, be16_bytes, zeros, read_be16, copy_range, push_slice, push_zeros};
use crate::net::ipv4::{broadcast_mac, broadcast_ip, checksummed_udp_frame, ipv4_header, udp_header, build_udp_frame, ip_checksum_of, lemma_checksummed_frame_verifies};

verus! {

pub struct DhcpServer {
    server_mac: [u8; 6],
    server_ip: [u8; 4],
    client_ip: [u8; 4],
    gateway_ip: [u8; 4],
    subnet_mask: [u8; 4],
    dns_ip: [u8; 4],
}

/// The addresses a server hands out, as byte sequences.
pub ghost struct DhcpServerView {
    pub server_mac: Seq<u8>,
    pub server_ip: Seq<u8>,
    pub client_ip: Seq<u8>,
    pub gateway_ip: Seq<u8>,
    pub subnet_mask: Seq<u8>,
    pub dns_ip: Seq<u8>,
}

impl View for DhcpServer {
    type V = DhcpServerView;

    closed spec fn view(&self) -> DhcpServerView {
        DhcpServerView {
            server_mac: self.server_mac@,
            server_ip: self.server_ip@,
            client_ip: self.client_ip@,
            gateway_ip: self.gateway_ip@,
            subnet_mask: self.subnet_mask@,
            dns_ip: self.dns_ip@,
        }
    }
}

/// Option walk of a DHCP message from offset `i`: the value of the first
/// message-type option (53) of length 1 before the END option, skipping PAD.
pub open spec fn dhcp_message_type_from(dhcp: Seq<u8>, i: int) -> Option<u8>
    decreases (if 0 <= i < dhcp.len() { dhcp.len() - i } else { 0 }),
{
    if i < 0 || i >= dhcp.len() {
        None
    } else if dhcp[i] == 255 {
        None
    } else if dhcp[i] == 0 {
        dhcp_message_type_from(dhcp, i + 1)
    } else if i + 1 >= dhcp.len() {
        None
    } else if dhcp[i] == 53 && dhcp[i + 1] == 1 && i + 2 < dhcp.len() {
        Some(dhcp[i + 2])
    } else {
        dhcp_message_type_from(dhcp, i + 2 + dhcp[i + 1] as int)
    }
}

/// The message type of a DHCP message: options start after the magic cookie.
pub open spec fn dhcp_message_type(dhcp: Seq<u8>) -> Option<u8> {
    dhcp_message_type_from(dhcp, 240)
}

/// The reply type owed to an Ethernet frame: OFFER (2) for a DISCOVER (1) and
/// ACK (5) for a REQUEST (3), both sent as BOOTREQUESTs over IPv4/UDP to port
/// 67 with at least the fixed 240-byte DHCP header; `None` for anything else.
pub open spec fn dhcp_reply_type(frame: Seq<u8>) -> Option<u8> {
    if frame.len() < 42 || be16_at(frame, 12) != 0x0800 || frame[23] != 17 || be16_at(frame, 36)
        != 67 || frame.len() < 42 + 240 || frame[42] != 1 {
        None
    } else {
        match dhcp_message_type(frame.subrange(42, frame.len() as int)) {
            Some(t) => if t == 1 {
                Some(2u8)
            } else if t == 3 {
                Some(5u8)
            } else {
                None
            },
            None => None,
        }
    }
}

/// The client hardware address a reply carries: the request's `chaddr` cut
/// to its hardware-address length (at most six bytes), filled up with zeros
/// to six bytes.
pub open spec fn reply_chaddr(frame: Seq<u8>) -> Seq<u8> {
    let n: int = if frame[44] < 6 {
        frame[44] as int
    } else {
        6
    };
    frame.subrange(70, 70 + n) + zeros((6 - n) as nat)
}

/// Lease time in seconds (24 hours), big-endian.
pub open spec fn lease_time_bytes() -> Seq<u8> {
    seq![0u8, 1, 0x51, 0x80]
}

impl DhcpServerView {
    /// The addresses have their sizes: a six-byte MAC and four-byte IPv4
    /// addresses.
    pub open spec fn wf(self) -> bool {
        &&& self.server_mac.len() == 6
        &&& self.server_ip.len() == 4
        &&& self.client_ip.len() == 4
        &&& self.gateway_ip.len() == 4
        &&& self.subnet_mask.len() == 4
        &&& self.dns_ip.len() == 4
    }
}

/// A reply is never answered: it goes to UDP port 68, not to the server port
/// 67, so no server takes it for a request.
pub proof fn lemma_reply_not_answered(v: DhcpServerView, xid: Seq<u8>, chaddr: Seq<u8>, msg_type: u8)
    requires
        v.wf(),
    ensures
        dhcp_reply_type(v.reply_frame(xid, chaddr, msg_type)) is None,
{
    let payload = v.reply_payload(xid, chaddr, msg_type);
    let hdr = ipv4_header(
        v.server_ip,
        broadcast_ip(),
        payload.len() as int,
        be16_bytes(ip_checksum_of(ipv4_header(v.server_ip, broadcast_ip(), payload.len() as int, seq![0u8, 0]))),
    );
    let udp = udp_header(67, 68, payload.len() as int);
    let f = v.reply_frame(xid, chaddr, msg_type);
    assert(hdr.len() == 20);
    assert(udp.len() == 8);
    assert(f == broadcast_mac() + v.server_mac + seq![8u8, 0] + hdr + udp + payload);
    assert(f[36] == udp[2]);
    assert(f[37] == udp[3]);
    assert(udp[2] == 0 && udp[3] == 68);
    assert(be16_at(f, 36) == 68);
}

impl DhcpServerView {
    /// Options of a reply: message type, server id, subnet mask, router, DNS,
    /// lease time, END.
    pub open spec fn options(self, msg_type: u8) -> Seq<u8> {
        seq![53u8, 1, msg_type, 54, 4] + self.server_ip + seq![1u8, 4] + self.subnet_mask + seq![
            3u8,
            4,
        ] + self.gateway_ip + seq![6u8, 4] + self.dns_ip + seq![51u8, 4] + lease_time_bytes()
            + seq![255u8]
    }

    /// The 300-byte BOOTREPLY payload for transaction `xid` and client `chaddr`.
    pub open spec fn reply_payload(self, xid: Seq<u8>, chaddr: Seq<u8>, msg_type: u8) -> Seq<u8> {
        seq![2u8, 1, 6, 0] + xid + zeros(8) + self.client_ip + self.server_ip + zeros(4) + chaddr
            + zeros(202) + seq![99u8, 130, 83, 99] + self.options(msg_type) + zeros(26)
    }

    /// The full Ethernet frame of a reply: broadcast from the server, UDP 67 → 68.
    pub open spec fn reply_frame(self, xid: Seq<u8>, chaddr: Seq<u8>, msg_type: u8) -> Seq<u8> {
        checksummed_udp_frame(
            broadcast_mac(),
            self.server_mac,
            self.server_ip,
            broadcast_ip(),
            67,
            68,
            self.reply_payload(xid, chaddr, msg_type),
        )
    }
}

impl DhcpServer {
    /// Every server's addresses have their sizes.
    pub proof fn lemma_view_wf(&self)
        ensures
            self@.wf(),
    {
    }

    /// The server for a VM's LAN interface.
    pub fn for_lan(graph_index: u8, vm_index: u8, server_mac: [u8; 6]) -> (s: Self)
        ensures
            s@.wf(),
            s@.server_mac == server_mac@,
            s@.server_ip == seq![10u8, 0, graph_index, 1],
            s@.client_ip == seq![10u8, 0, graph_index, vm_index],
            s@.gateway_ip == seq![10u8, 0, graph_index, 1],
            s@.subnet_mask == seq![255u8, 255, 255, 0],
            s@.dns_ip == seq![10u8, 0, graph_index, 1],
    {
        let s = DhcpServer {
            server_mac,
            server_ip: [10, 0, graph_index, 1],
            client_ip: [10, 0, graph_index, vm_index],
            gateway_ip: [10, 0, graph_index, 1],
            subnet_mask: [255, 255, 255, 0],
            dns_ip: [10, 0, graph_index, 1],
        };
        assert(s@.server_ip =~= seq![10u8, 0, graph_index, 1]);
        assert(s@.client_ip =~= seq![10u8, 0, graph_index, vm_index]);
        assert(s@.gateway_ip =~= seq![10u8, 0, graph_index, 1]);
        assert(s@.subnet_mask =~= seq![255u8, 255, 255, 0]);
        assert(s@.dns_ip =~= seq![10u8, 0, graph_index, 1]);
        s
    }

    /// The server for a VM's NAT interface.
    pub fn for_nat(vm_index: u8, server_mac: [u8; 6]) -> (s: Self)
        ensures
            s@.wf(),
            s@.server_mac == server_mac@,
            s@.server_ip == seq![10u8, 1, vm_index, 1],
            s@.client_ip == seq![10u8, 1, vm_index, 2],
            s@.gateway_ip == seq![10u8, 1, vm_index, 1],
            s@.subnet_mask == seq![255u8, 255, 255, 0],
            s@.dns_ip == seq![8u8, 8, 8, 8],
    {
        let s = DhcpServer {
            server_mac,
            server_ip: [10, 1, vm_index, 1],
            client_ip: [10, 1, vm_index, 2],
            gateway_ip: [10, 1, vm_index, 1],
            subnet_mask: [255, 255, 255, 0],
            dns_ip: [8, 8, 8, 8],
        };
        assert(s@.server_ip =~= seq![10u8, 1, vm_index, 1]);
        assert(s@.client_ip =~= seq![10u8, 1, vm_index, 2]);
        assert(s@.gateway_ip =~= seq![10u8, 1, vm_index, 1]);
        assert(s@.subnet_mask =~= seq![255u8, 255, 255, 0]);
        assert(s@.dns_ip =~= seq![8u8, 8, 8, 8]);
        s
    }

    /// Answers a DHCP request frame with an OFFER or ACK frame; `None` for any
    /// frame that is not a DISCOVER or REQUEST to this service.
    pub fn handle(&self, frame: &[u8]) -> (reply: Option<Vec<u8>>)
        requires
            frame@.len() <= isize::MAX,
        ensures
            reply is Some <==> dhcp_reply_type(frame@) is Some,
            reply matches Some(r) ==> r@ == self@.reply_frame(
                frame@.subrange(46, 50),
                reply_chaddr(frame@),
                dhcp_reply_type(frame@)->0,
            ),
    {
        if frame.len() < 42 {
            return None;
        }
        let eth_type = read_be16(frame, 12);
        if eth_type != 0x0800 {
            return None;
        }
        if frame[23] != 17 {
            return None;
        }
        let udp_dst = read_be16(frame, 36);
        if udp_dst != 67 {
            return None;
        }
        let dhcp = vstd::slice::slice_subrange(frame, 42, frame.len());
        if dhcp.len() < 240 {
            return None;
        }
        let op = dhcp[0];
        let hlen = dhcp[2] as usize;
        let chaddr_len = if hlen < 6 {
            hlen
        } else {
            6
        };
        if op != 1 {
            return None;
        }
        let msg_type = match self.dhcp_msg_type(dhcp) {
            Some(t) => t,
            None => return None,
        };
        let reply_type: u8 = if msg_type == 1 {
            2
        } else if msg_type == 3 {
            5
        } else {
            return None;
        };
        assert(dhcp_reply_type(frame@) == Some(reply_type));
        let xid = copy_range(dhcp, 4, 8);
        let mut chaddr = copy_range(dhcp, 28, 28 + chaddr_len);
        push_zeros(&mut chaddr, 6 - chaddr_len);
        assert(xid@ =~= frame@.subrange(46, 50));
        assert(chaddr@ =~= reply_chaddr(frame@));
        Some(self.build_reply(xid.as_slice(), chaddr.as_slice(), reply_type))
    }

    /// Walks the options of a DHCP message to find its message type.
    fn dhcp_msg_type(&self, dhcp: &[u8]) -> (t: Option<u8>)
        requires
            dhcp@.len() <= isize::MAX,
        ensures
            t == dhcp_message_type(dhcp@),
    {
        option_message_type(dhcp)
    }

    /// Builds the reply payload and wraps it into a frame.
    fn build_reply(&self, xid: &[u8], chaddr: &[u8], msg_type: u8) -> (r: Vec<u8>)
        requires
            xid@.len() == 4,
            chaddr@.len() == 6,
        ensures
            r@ == self@.reply_frame(xid@, chaddr@, msg_type),
    {
        let mut dhcp: Vec<u8> = Vec::new();
        dhcp.push(2);
        dhcp.push(1);
        dhcp.push(6);
        dhcp.push(0);
        push_slice(&mut dhcp, xid);
        push_zeros(&mut dhcp, 8);
        push_slice(&mut dhcp, &self.client_ip);
        push_slice(&mut dhcp, &self.server_ip);
        push_zeros(&mut dhcp, 4);
        push_slice(&mut dhcp, chaddr);
        push_zeros(&mut dhcp, 202);
        dhcp.push(99);
        dhcp.push(130);
        dhcp.push(83);
        dhcp.push(99);
        let ghost before_options = dhcp@;
        dhcp.push(53);
        dhcp.push(1);
        dhcp.push(msg_type);
        dhcp.push(54);
        dhcp.push(4);
        push_slice(&mut dhcp, &self.server_ip);
        dhcp.push(1);
        dhcp.push(4);
        push_slice(&mut dhcp, &self.subnet_mask);
        dhcp.push(3);
        dhcp.push(4);
        push_slice(&mut dhcp, &self.gateway_ip);
        dhcp.push(6);
        dhcp.push(4);
        push_slice(&mut dhcp, &self.dns_ip);
        dhcp.push(51);
        dhcp.push(4);
        dhcp.push(0);
        dhcp.push(1);
        dhcp.push(0x51);
        dhcp.push(0x80);
        dhcp.push(255);
        assert(dhcp@ =~= before_options + self@.options(msg_type));
        push_zeros(&mut dhcp, 26);
        assert(dhcp@ =~= self@.reply_payload(xid@, chaddr@, msg_type));
        self.wrap_udp(dhcp)
    }

    /// Wraps a DHCP payload into a broadcast Ethernet/IPv4/UDP frame from the
    /// server, with the IPv4 header checksum filled in.
    fn wrap_udp(&self, dhcp_payload: Vec<u8>) -> (pkt: Vec<u8>)
        requires
            dhcp_payload@.len() + 28 <= 0xFFFF,
        ensures
            pkt@ == checksummed_udp_frame(
                broadcast_mac(),
                self@.server_mac,
                self@.server_ip,
                broadcast_ip(),
                67,
                68,
                dhcp_payload@,
            ),
    {
        let bcast_mac: [u8; 6] = [0xFF; 6];
        let bcast_ip: [u8; 4] = [255; 4];
        assert(bcast_mac@ =~= broadcast_mac());
        assert(bcast_ip@ =~= broadcast_ip());
        build_udp_frame(
            &bcast_mac,
            &self.server_mac,
            &self.server_ip,
            &bcast_ip,
            67,
            68,
            dhcp_payload.as_slice(),
            true,
        )
    }
}

/// The message type option (53) of a DHCP message, from offset 240 on.
fn option_message_type(dhcp: &[u8]) -> (t: Option<u8>)
    requires
        dhcp@.len() <= isize::MAX,
    ensures
        t == dhcp_message_type(dhcp@),
{
    let mut i: usize = 240;
    while i < dhcp.len()
        invariant
            dhcp@.len() <= isize::MAX,
            i <= isize::MAX + 300,
            dhcp_message_type_from(dhcp@, i as int) == dhcp_message_type(dhcp@),
        decreases (if i < dhcp@.len() { dhcp@.len() - i } else { 0 }),
    {
        let opt = dhcp[i];
        if opt == 255 {
            return None;
        }
        if opt == 0 {
            i = i + 1;
            continue;
        }
        if i + 1 >= dhcp.len() {
            return None;
        }
        let len = dhcp[i + 1] as usize;
        if opt == 53 && len == 1 && i + 2 < dhcp.len() {
            return Some(dhcp[i + 2]);
        }
        i = i + 2 + len;
    }
    None
}


/// The reply a frame is owed (see `dhcp_reply_type`).
pub fn reply_type_of(frame: &[u8]) -> (t: Option<u8>)
    requires
        frame@.len() <= isize::MAX,
    ensures
        t == dhcp_reply_type(frame@),
{
    if frame.len() < 42 || read_be16(frame, 12) != 0x0800 || frame[23] != 17 || read_be16(frame, 36) != 67 {
        return None;
    }
    if frame.len() < 42 + 240 || frame[42] != 1 {
        return None;
    }
    let dhcp = vstd::slice::slice_subrange(frame, 42, frame.len());
    match option_message_type(dhcp) {
        Some(1) => Some(2),
        Some(3) => Some(5),
        _ => None,
    }
}

/// Every reply the server sends carries a correct IPv4 header checksum: the
/// one's-complement sum over the header checks out to zero.
pub proof fn lemma_reply_checksum_valid(server: DhcpServer, xid: Seq<u8>, chaddr: Seq<u8>, msg_type: u8)
    requires
        xid.len() == 4,
        chaddr.len() == 6,
    ensures
        ip_checksum_of(server@.reply_frame(xid, chaddr, msg_type).subrange(14, 34)) == 0,
{
    let v = server@;
    assert(v.reply_payload(xid, chaddr, msg_type).len() == 300);
    lemma_checksummed_frame_verifies(
        broadcast_mac(),
        v.server_mac,
        v.server_ip,
        broadcast_ip(),
        67,
        68,
        v.reply_payload(xid, chaddr, msg_type),
    );
}

} // verus!
