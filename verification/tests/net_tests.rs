use knofoo_vm::net::dhcp::DhcpServer;
use knofoo_vm::net::dns::DnsForwarder;
use knofoo_vm::net::ipv4::{build_udp_frame, ip_checksum};
use knofoo_vm::net::mac::{generate_mac, mac_from_hash};
use knofoo_vm::net::route::{route_guest_frame, GuestRoute, NicId};
use knofoo_vm::net::port::Handoff;
use knofoo_vm::net::switch::{SwitchRegistry, VirtualSwitch};

const SERVER_MAC: [u8; 6] = [0x52, 0x54, 0x00, 0x00, 0x00, 0x01];
const CLIENT_MAC: [u8; 6] = [0x52, 0x54, 0x12, 0x34, 0x56, 0x78];
const XID: [u8; 4] = [0xDE, 0xAD, 0xBE, 0xEF];

/// A DHCP request frame from the client with the given message type.
fn dhcp_frame(msg_type: u8) -> Vec<u8> {
    let mut f = vec![0u8; 42 + 300];
    f[0..6].copy_from_slice(&[0xFF; 6]);
    f[6..12].copy_from_slice(&CLIENT_MAC);
    f[12] = 0x08;
    f[13] = 0x00;
    f[14] = 0x45;
    f[23] = 17;
    f[34..36].copy_from_slice(&68u16.to_be_bytes());
    f[36..38].copy_from_slice(&67u16.to_be_bytes());
    f[38..40].copy_from_slice(&308u16.to_be_bytes());
    let d = &mut f[42..];
    d[0] = 1;
    d[1] = 1;
    d[2] = 6;
    d[4..8].copy_from_slice(&XID);
    d[28..34].copy_from_slice(&CLIENT_MAC);
    d[236..240].copy_from_slice(&[99, 130, 83, 99]);
    d[240] = 53;
    d[241] = 1;
    d[242] = msg_type;
    d[243] = 255;
    f
}

/// A DNS query frame carrying `query` from the guest's port 5353.
fn dns_frame(query: &[u8]) -> Vec<u8> {
    let mut f = vec![0u8; 42];
    f[6..12].copy_from_slice(&CLIENT_MAC);
    f[12] = 0x08;
    f[23] = 17;
    f[26..30].copy_from_slice(&[10, 0, 0, 7]);
    f[34..36].copy_from_slice(&5353u16.to_be_bytes());
    f[36..38].copy_from_slice(&53u16.to_be_bytes());
    f[38..40].copy_from_slice(&((8 + query.len()) as u16).to_be_bytes());
    f.extend_from_slice(query);
    f
}

#[test]
fn ip_checksum_of_reference_header() {
    let h = [
        0x45, 0x00, 0x00, 0x73, 0x00, 0x00, 0x40, 0x00, 0x40, 0x11, 0x00, 0x00, 0xc0, 0xa8, 0x00,
        0x01, 0xc0, 0xa8, 0x00, 0xc7,
    ];
    assert_eq!(ip_checksum(&h), 0xb861);
}

#[test]
fn ip_checksum_of_header_with_checksum_is_zero() {
    let h = [
        0x45, 0x00, 0x00, 0x73, 0x00, 0x00, 0x40, 0x00, 0x40, 0x11, 0xb8, 0x61, 0xc0, 0xa8, 0x00,
        0x01, 0xc0, 0xa8, 0x00, 0xc7,
    ];
    assert_eq!(ip_checksum(&h), 0);
}

#[test]
fn udp_frame_layout_and_checksum() {
    let f = build_udp_frame(&[1; 6], &[2; 6], &[10, 0, 0, 1], &[10, 0, 0, 2], 1000, 2000, b"hello", true);
    assert_eq!(f.len(), 47);
    assert_eq!(&f[0..6], &[1; 6]);
    assert_eq!(&f[6..12], &[2; 6]);
    assert_eq!(&f[12..14], &[8, 0]);
    assert_eq!(f[14], 0x45);
    assert_eq!(&f[16..18], &[0, 33]);
    assert_eq!(f[23], 17);
    assert_eq!(&f[26..30], &[10, 0, 0, 1]);
    assert_eq!(&f[30..34], &[10, 0, 0, 2]);
    assert_eq!(&f[34..36], &1000u16.to_be_bytes());
    assert_eq!(&f[36..38], &2000u16.to_be_bytes());
    assert_eq!(&f[38..40], &[0, 13]);
    assert_eq!(&f[42..], b"hello");
    assert_ne!(&f[24..26], &[0, 0]);
    assert_eq!(ip_checksum(&f[14..34]), 0);
}

#[test]
fn udp_frame_without_checksum_leaves_field_zero() {
    let f = build_udp_frame(&[1; 6], &[2; 6], &[10, 0, 0, 1], &[10, 0, 0, 2], 1, 2, b"", false);
    assert_eq!(f.len(), 42);
    assert_eq!(&f[24..26], &[0, 0]);
}

#[test]
fn dhcp_lan_discover_gets_offer() {
    let server = DhcpServer::for_lan(3, 4, SERVER_MAC);
    let r = server.handle(&dhcp_frame(1)).expect("offer");
    assert_eq!(r.len(), 342);
    assert_eq!(&r[0..6], &[0xFF; 6]);
    assert_eq!(&r[6..12], &SERVER_MAC);
    assert_eq!(&r[16..18], &328u16.to_be_bytes());
    assert_eq!(&r[26..30], &[10, 0, 3, 1]);
    assert_eq!(&r[30..34], &[255; 4]);
    assert_eq!(&r[34..36], &[0, 67]);
    assert_eq!(&r[36..38], &[0, 68]);
    assert_eq!(&r[38..40], &308u16.to_be_bytes());
    let p = &r[42..];
    assert_eq!(&p[0..4], &[2, 1, 6, 0]);
    assert_eq!(&p[4..8], &XID);
    assert_eq!(&p[16..20], &[10, 0, 3, 4]);
    assert_eq!(&p[20..24], &[10, 0, 3, 1]);
    assert_eq!(&p[28..34], &CLIENT_MAC);
    assert_eq!(&p[236..240], &[99, 130, 83, 99]);
    assert_eq!(&p[240..243], &[53, 1, 2]);
    assert_eq!(&p[243..249], &[54, 4, 10, 0, 3, 1]);
    assert_eq!(&p[249..255], &[1, 4, 255, 255, 255, 0]);
    assert_eq!(&p[255..261], &[3, 4, 10, 0, 3, 1]);
    assert_eq!(&p[261..267], &[6, 4, 10, 0, 3, 1]);
    assert_eq!(&p[267..273], &[51, 4, 0, 1, 0x51, 0x80]);
    assert_eq!(p[273], 255);
    assert!(p[274..].iter().all(|&b| b == 0));
}

#[test]
fn dhcp_reply_header_checksum_verifies() {
    let server = DhcpServer::for_lan(0, 0, SERVER_MAC);
    let r = server.handle(&dhcp_frame(1)).unwrap();
    assert_eq!(ip_checksum(&r[14..34]), 0);
    let nat = DhcpServer::for_nat(9, SERVER_MAC);
    let r = nat.handle(&dhcp_frame(3)).unwrap();
    assert_eq!(ip_checksum(&r[14..34]), 0);
}

#[test]
fn dhcp_nat_request_gets_ack() {
    let server = DhcpServer::for_nat(7, SERVER_MAC);
    let r = server.handle(&dhcp_frame(3)).expect("ack");
    let p = &r[42..];
    assert_eq!(&p[240..243], &[53, 1, 5]);
    assert_eq!(&p[16..20], &[10, 1, 7, 2]);
    assert_eq!(&p[20..24], &[10, 1, 7, 1]);
    assert_eq!(&p[255..261], &[3, 4, 10, 1, 7, 1]);
    assert_eq!(&p[261..267], &[6, 4, 8, 8, 8, 8]);
}

#[test]
fn dhcp_other_messages_are_not_answered() {
    let server = DhcpServer::for_lan(0, 1, SERVER_MAC);
    assert!(server.handle(&dhcp_frame(7)).is_none());
    let mut not_udp = dhcp_frame(1);
    not_udp[23] = 6;
    assert!(server.handle(&not_udp).is_none());
    let mut wrong_port = dhcp_frame(1);
    wrong_port[37] = 99;
    assert!(server.handle(&wrong_port).is_none());
    let mut reply_op = dhcp_frame(1);
    reply_op[42] = 2;
    assert!(server.handle(&reply_op).is_none());
    assert!(server.handle(&[0u8; 41]).is_none());
    let short = &dhcp_frame(1)[..42 + 239];
    assert!(server.handle(short).is_none());
}

#[test]
fn dhcp_option_walk_skips_pad_and_other_options() {
    let server = DhcpServer::for_lan(0, 1, SERVER_MAC);
    let mut f = dhcp_frame(1);
    let d = &mut f[42..];
    d[240] = 0;
    d[241] = 12;
    d[242] = 2;
    d[243] = b'v';
    d[244] = b'm';
    d[245] = 53;
    d[246] = 1;
    d[247] = 3;
    d[248] = 255;
    let r = server.handle(&f).unwrap();
    assert_eq!(&r[42 + 240..42 + 243], &[53, 1, 5]);
}

#[test]
fn dns_forwarder_defaults_to_public_resolver() {
    assert_eq!(DnsForwarder::default().upstream(), "8.8.8.8:53");
    assert_eq!(DnsForwarder::new("1.1.1.1:53").upstream(), "1.1.1.1:53");
}

#[test]
fn dns_query_is_lifted_out() {
    let fwd = DnsForwarder::default();
    let q = fwd.extract_query(&dns_frame(b"\x12\x34query")).expect("query");
    assert_eq!(q.src_mac, CLIENT_MAC.to_vec());
    assert_eq!(q.src_ip, vec![10, 0, 0, 7]);
    assert_eq!(q.src_port, 5353);
    assert_eq!(q.payload, b"\x12\x34query".to_vec());
}

#[test]
fn dns_non_queries_are_ignored() {
    let fwd = DnsForwarder::default();
    let mut f = dns_frame(b"abc");
    f[37] = 54;
    assert!(fwd.extract_query(&f).is_none());
    let mut truncated = dns_frame(b"abcdef");
    truncated.truncate(44);
    assert!(fwd.extract_query(&truncated).is_none());
    assert!(fwd.extract_query(&[0u8; 20]).is_none());
}

#[test]
fn dns_answer_is_framed_for_guest() {
    let fwd = DnsForwarder::default();
    let pkt = fwd.wrap_udp_response(b"answer", &CLIENT_MAC, &[10, 0, 0, 7], 5353);
    assert_eq!(pkt.len(), 48);
    assert_eq!(&pkt[0..6], &CLIENT_MAC);
    assert_eq!(&pkt[6..12], &[0x52, 0x54, 0x00, 0xD0, 0x53, 0x01]);
    assert_eq!(&pkt[26..30], &[10, 0, 0, 1]);
    assert_eq!(&pkt[30..34], &[10, 0, 0, 7]);
    assert_eq!(&pkt[34..36], &[0, 53]);
    assert_eq!(&pkt[36..38], &5353u16.to_be_bytes());
    assert_eq!(&pkt[38..40], &[0, 14]);
    assert_eq!(&pkt[24..26], &[0, 0]);
    assert_eq!(&pkt[42..], b"answer");
}

#[test]
fn mac_addresses_follow_the_hash() {
    let m = mac_from_hash(0x1122_3344_5566_7788, 1);
    assert_eq!(m, [0x52, 0x54, 0x44, 0x66, 0x77, 0x89]);
    let m0 = mac_from_hash(0x1122_3344_5566_7788, 0);
    assert_eq!(m0, [0x52, 0x54, 0x44, 0x66, 0x77, 0x88]);
}

#[test]
fn nic_macs_of_one_vm_differ() {
    let a = generate_mac("vm-1", 0);
    let b = generate_mac("vm-1", 1);
    assert_ne!(a, b);
    assert_eq!(&a[0..5], &b[0..5]);
    assert_eq!(a[0] & 3, 2);
    assert_eq!(generate_mac("vm-1", 0), a);
}

fn ports_of(sent: Vec<Handoff>) -> Vec<[u8; 6]> {
    sent.iter().map(|h| h.port()).collect()
}

#[test]
fn switch_forwards_unicast_to_its_port_only() {
    let mut sw = VirtualSwitch::new("graph-a");
    let a = [2, 0, 0, 0, 0, 1];
    let b = [2, 0, 0, 0, 0, 2];
    let c = [2, 0, 0, 0, 0, 3];
    let _ra = sw.add_port(a);
    let rb = sw.add_port(b);
    let rc = sw.add_port(c);
    assert_eq!(sw.port_count(), 3);
    assert_eq!(sw.graph_id(), "graph-a");
    let mut frame = vec![0u8; 20];
    frame[0..6].copy_from_slice(&b);
    assert_eq!(sw.recipients(&a, &frame), vec![b]);
    assert_eq!(ports_of(sw.deliver(&a, frame.clone())), vec![b]);
    assert_eq!(rb.lock().unwrap().try_recv().unwrap(), frame);
    assert!(rc.lock().unwrap().try_recv().is_err());
}

#[test]
fn switch_floods_broadcast_to_all_other_ports() {
    let mut sw = VirtualSwitch::new("g");
    let a = [2, 0, 0, 0, 0, 1];
    let b = [2, 0, 0, 0, 0, 2];
    let c = [2, 0, 0, 0, 0, 3];
    let ra = sw.add_port(a);
    let rb = sw.add_port(b);
    let rc = sw.add_port(c);
    let mut frame = vec![0u8; 14];
    frame[0..6].copy_from_slice(&[0xFF; 6]);
    assert_eq!(sw.recipients(&a, &frame), vec![b, c]);
    assert_eq!(ports_of(sw.deliver(&a, frame.clone())), vec![b, c]);
    assert!(ra.lock().unwrap().try_recv().is_err());
    assert_eq!(rb.lock().unwrap().try_recv().unwrap(), frame);
    assert_eq!(rc.lock().unwrap().try_recv().unwrap(), frame);
}

#[test]
fn switch_port_removal_and_unknown_destination() {
    let mut sw = VirtualSwitch::new("g");
    let a = [2, 0, 0, 0, 0, 1];
    let b = [2, 0, 0, 0, 0, 2];
    let _ra = sw.add_port(a);
    let _rb = sw.add_port(b);
    sw.remove_port(&b);
    assert_eq!(sw.port_count(), 1);
    let mut frame = vec![0u8; 14];
    frame[0..6].copy_from_slice(&b);
    assert!(sw.recipients(&a, &frame).is_empty());
    assert!(sw.recipients(&a, &[1, 2, 3]).is_empty());
}

#[test]
fn registry_shares_one_switch_per_graph() {
    let mut reg = SwitchRegistry::new();
    let s1 = reg.get_or_create("g1");
    let s2 = reg.get_or_create("g1");
    let s3 = reg.get_or_create("g2");
    let _rx = s1.lock().unwrap().add_port([2, 0, 0, 0, 0, 9]);
    assert_eq!(s2.lock().unwrap().port_count(), 1);
    assert_eq!(s3.lock().unwrap().port_count(), 0);
    let again = std::sync::Arc::clone(&s3);
    assert_eq!(again.lock().unwrap().graph_id(), "g2");
    reg.remove_graph("g1");
    let kept = reg.get_or_create("g2");
    assert!(std::sync::Arc::ptr_eq(&kept, &s3));
    let fresh = reg.get_or_create("g1");
    assert!(!std::sync::Arc::ptr_eq(&fresh, &s1));
    assert_eq!(fresh.lock().unwrap().port_count(), 0);
}

#[test]
fn switch_delivers_broadcast_and_unicast_in_order() {
    let a = [2, 0, 0, 0, 0, 1];
    let b = [2, 0, 0, 0, 0, 2];
    let c = [2, 0, 0, 0, 0, 3];
    let mut sw = VirtualSwitch::new("g");
    let ra = sw.add_port(a);
    let rb = sw.add_port(b);
    let rc = sw.add_port(c);
    let bcast = vec![0xFF, 0xFF, 0xFF, 0xFF, 0xFF, 0xFF, 7];
    let ucast = vec![2, 0, 0, 0, 0, 2, 9];
    assert_eq!(ports_of(sw.deliver(&a, bcast.clone())), vec![b, c]);
    assert_eq!(ports_of(sw.deliver(&a, ucast.clone())), vec![b]);
    assert!(sw.deliver(&a, vec![1, 2, 3]).is_empty());
    let rb = rb.lock().unwrap();
    assert_eq!(rb.try_recv().unwrap(), bcast);
    assert_eq!(rb.try_recv().unwrap(), ucast);
    assert!(rb.try_recv().is_err());
    let rc = rc.lock().unwrap();
    assert_eq!(rc.try_recv().unwrap(), bcast);
    assert!(rc.try_recv().is_err());
    assert!(ra.lock().unwrap().try_recv().is_err());
}

#[test]
fn dhcp_replies_are_never_answered() {
    let lan = DhcpServer::for_lan(0, 1, SERVER_MAC);
    let nat = DhcpServer::for_nat(1, SERVER_MAC);
    let offer = lan.handle(&dhcp_frame(1)).unwrap();
    let ack = nat.handle(&dhcp_frame(3)).unwrap();
    assert_eq!(lan.handle(&offer), None);
    assert_eq!(nat.handle(&offer), None);
    assert_eq!(lan.handle(&ack), None);
    assert_eq!(nat.handle(&ack), None);
}

#[test]
fn guest_frames_are_routed_dhcp_then_dns_then_on() {
    let dhcp = DhcpServer::for_lan(0, 1, SERVER_MAC);
    let dns = DnsForwarder::default();
    match route_guest_frame(&dhcp, &dns, &dhcp_frame(1)) {
        GuestRoute::Reply(r) => assert_eq!(r.len(), 342),
        _ => panic!("expected a DHCP reply"),
    }
    match route_guest_frame(&dhcp, &dns, &dns_frame(b"q")) {
        GuestRoute::Dns(q) => assert_eq!(q.payload, b"q".to_vec()),
        _ => panic!("expected a DNS query"),
    }
    assert!(matches!(route_guest_frame(&dhcp, &dns, &[0u8; 60]), GuestRoute::Pass));
    assert!(NicId::Lan != NicId::Nat);
}

#[test]
fn dhcp_short_hardware_address_is_zero_padded() {
    let server = DhcpServer::for_lan(7, 5, [0x52, 0x54, 0, 0, 0, 2]);
    let mut f = dhcp_frame(1);
    f[44] = 3;
    let r = server.handle(&f).expect("offer");
    assert_eq!(&r[42 + 28..42 + 34], &[CLIENT_MAC[0], CLIENT_MAC[1], CLIENT_MAC[2], 0, 0, 0]);
    assert_eq!(&r[42 + 16..42 + 20], &[10, 0, 7, 5]);
    let mut g = vec![0u8; 286];
    g[12] = 8;
    g[23] = 17;
    g[37] = 67;
    g[42] = 1;
    g[44] = 0;
    g[282..286].copy_from_slice(&[53, 1, 1, 255]);
    let r = server.handle(&g).expect("offer");
    assert_eq!(&r[42 + 28..42 + 34], &[0u8; 6]);
}
