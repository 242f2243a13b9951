use knofoo_vm::net::mac::generate_mac;
use knofoo_vm::net::switch::VirtualSwitch;
use knofoo_vm::virtio::gpu::GpuDevice;
use knofoo_vm::virtio::input::{web_code_to_keysym, InputDevice};
use knofoo_vm::virtio::net::NetDevice;
use knofoo_vm::virtio::serial::SerialDevice;
use std::sync::{Arc, Mutex};

#[test]
fn serial_routes_guest_output_by_prefix() {
    let mut s = SerialDevice::new();
    s.recv_from_guest(b"hello ");
    s.recv_from_guest(b"CLIP:copied");
    s.recv_from_guest(b"world");
    assert_eq!(s.drain_stdout(), Some("hello world".to_string()));
    assert_eq!(s.drain_stdout(), None);
    assert_eq!(s.drain_clipboard(), Some("copied".to_string()));
    assert_eq!(s.drain_clipboard(), None);
}

#[test]
fn serial_exit_codes() {
    let mut s = SerialDevice::new();
    assert_eq!(s.take_exit_code(), None);
    s.recv_from_guest(b"EXIT: 42\n");
    assert_eq!(s.take_exit_code(), Some(42));
    assert_eq!(s.take_exit_code(), None);
    s.recv_from_guest(b"EXIT:-3");
    s.recv_from_guest(b"EXIT:oops");
    assert_eq!(s.take_exit_code(), None);
    s.recv_from_guest(b"EXIT:7");
    s.recv_from_guest(b"EXIT:\xFF");
    assert_eq!(s.take_exit_code(), Some(7));
    assert_eq!(s.drain_stdout(), None);
}

#[test]
fn serial_lossy_text() {
    let mut s = SerialDevice::new();
    s.recv_from_guest(b"a\xFFb");
    assert_eq!(s.drain_stdout(), Some("a\u{FFFD}b".to_string()));
}

#[test]
fn serial_queues_messages_for_guest_in_order() {
    let mut s = SerialDevice::new();
    s.send_to_guest(b"one");
    s.send_clipboard_to_guest("text");
    assert_eq!(s.next_tx(), Some(b"one".to_vec()));
    assert_eq!(s.next_tx(), Some(b"CLIP:text\n".to_vec()));
    assert_eq!(s.next_tx(), None);
}

#[test]
fn serial_clipboard_round_trip() {
    let mut host = SerialDevice::new();
    host.send_clipboard_to_guest("shared text");
    let msg = host.next_tx().unwrap();
    let mut back = SerialDevice::new();
    back.recv_from_guest(&msg[..msg.len() - 1]);
    assert_eq!(back.drain_clipboard(), Some("shared text".to_string()));
}

#[test]
fn gpu_starts_at_default_size() {
    let g = GpuDevice::new();
    assert_eq!((g.width, g.height), (1024, 768));
    assert_eq!(g.framebuffer.len(), 1024 * 768 * 4);
}

#[test]
fn gpu_region_update_and_dirty_rows() {
    let mut g = GpuDevice::new();
    g.resize(4, 4);
    assert_eq!(g.framebuffer.len(), 64);
    let first = g.take_dirty_rects();
    assert_eq!(first.len(), 1);
    assert_eq!((first[0].x, first[0].y, first[0].w, first[0].h), (0, 0, 4, 4));
    assert!(g.take_dirty_rects().is_empty());
    g.update_region(1, 2, 2, 1, &[9u8; 8]);
    assert_eq!(&g.framebuffer[2 * 16 + 4..2 * 16 + 12], &[9u8; 8]);
    let rects = g.take_dirty_rects();
    assert_eq!(rects.len(), 1);
    assert_eq!((rects[0].x, rects[0].y, rects[0].w, rects[0].h), (0, 2, 4, 1));
    assert!(g.take_dirty_rects().is_empty());
}

#[test]
fn gpu_region_outside_frame_is_ignored() {
    let mut g = GpuDevice::new();
    g.resize(2, 2);
    let _ = g.take_dirty_rects();
    g.update_region(1, 1, 4, 4, &[1u8; 64]);
    assert!(g.framebuffer.iter().all(|&b| b == 0));
}

#[test]
fn gpu_snapshots() {
    let mut g = GpuDevice::new();
    g.resize(1, 1);
    g.update_region(0, 0, 1, 1, &[1, 2, 3, 4]);
    let bin = g.take_snapshot_bin();
    assert_eq!(bin, vec![1, 0, 0, 0, 1, 0, 0, 0, 1, 2, 3, 4]);
    assert!(g.take_snapshot_bin().is_empty());
    g.update_region(0, 0, 1, 1, &[5, 6, 7, 8]);
    let snap = g.take_snapshot().expect("changed");
    assert_eq!((snap.w, snap.h), (1, 1));
    assert_eq!(snap.data, "BQYHCA==");
    assert!(g.take_snapshot().is_none());
}

#[test]
fn keys_map_to_keysyms() {
    assert_eq!(web_code_to_keysym("Enter", "Enter"), Some(0xFF0D));
    assert_eq!(web_code_to_keysym("Escape", "Escape"), Some(0xFF1B));
    assert_eq!(web_code_to_keysym("KeyA", "a"), Some(0x61));
    assert_eq!(web_code_to_keysym("Digit1", "!"), Some(0x21));
    assert_eq!(web_code_to_keysym("KeyE", "\u{e9}"), Some(0xE9));
    assert_eq!(web_code_to_keysym("Semicolon", "\u{FF1B}"), Some(0x0100_FF1B));
    assert_eq!(web_code_to_keysym("KeyQ", "\u{20AC}"), Some(0x0100_20AC));
    let d = InputDevice::new(800, 600);
    assert_eq!((d.fb_w, d.fb_h), (800, 600));
}

#[test]
fn nic_macs_and_queues() {
    let mut nic = NetDevice::new("vm-7", true, false);
    assert_eq!(nic.mac_lan, generate_mac("vm-7", 0));
    assert_eq!(nic.mac_nat, generate_mac("vm-7", 1));
    assert!(nic.lan_enabled && !nic.nat_enabled);
    nic.lan_recv(vec![1, 2]);
    nic.lan_recv(vec![3]);
    nic.nat_recv(vec![4]);
    assert_eq!(nic.drain_lan_rx(), vec![vec![1, 2], vec![3]]);
    assert!(nic.drain_lan_rx().is_empty());
    assert_eq!(nic.drain_nat_rx(), vec![vec![4]]);
    nic.nat_send(vec![0; 14]);
}

#[test]
fn nic_sends_through_attached_switch() {
    let sw = Arc::new(Mutex::new(VirtualSwitch::new("g")));
    let peer = [2, 0, 0, 0, 0, 2];
    let rx = sw.lock().unwrap().add_port(peer);
    let mut nic = NetDevice::new("vm-8", true, true);
    nic.attach_switch(Arc::clone(&sw));
    let mut frame = vec![0u8; 14];
    frame[0..6].copy_from_slice(&peer);
    let sent = nic.lan_send(frame.clone()).expect("attached");
    assert_eq!(sent.iter().map(|h| h.port()).collect::<Vec<_>>(), vec![peer]);
    assert_eq!(rx.lock().unwrap().try_recv().unwrap(), frame);
    let mut alone = NetDevice::new("vm-9", true, true);
    assert!(alone.lan_send(frame).is_none());
}

#[test]
fn nat_drain_returns_frames_received_since_last_drain() {
    let mut nic = NetDevice::new("vm-10", true, true);
    nic.nat_recv(vec![9]);
    assert_eq!(nic.drain_nat_rx(), vec![vec![9]]);
    nic.nat_recv(vec![1]);
    nic.lan_recv(vec![7]);
    nic.nat_send(vec![0; 14]);
    nic.nat_recv(vec![2, 2]);
    assert_eq!(nic.drain_lan_rx(), vec![vec![7]]);
    let _ = nic.lan_send(vec![0; 14]);
    nic.nat_recv(vec![3]);
    assert_eq!(nic.drain_nat_rx(), vec![vec![1], vec![2, 2], vec![3]]);
    assert!(nic.drain_nat_rx().is_empty());
}
