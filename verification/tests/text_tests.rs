use knofoo_vm::virtio::gpu::GpuDevice;
use knofoo_vm::events::{ClipboardEvent, SerialEvent, VmStatusEvent};
use knofoo_vm::hypervisor::{BootMode, NetworkConfig, InputConfig};
use knofoo_vm::listing::{listing_order, EntryKey};
use knofoo_vm::machine::{backend_input, BackendInput, VmIndexTable};
use knofoo_vm::text::{str_eq, TextBuf};
use knofoo_vm::vault::{
    first_free_untitled, item_name, next_untitled, next_untitled_plain, rename_target, sanitize,
    untitled_name,
};
use knofoo_vm::virtio::input::VmInputKind;

fn names(v: &[&str]) -> Vec<String> {
    v.iter().map(|s| s.to_string()).collect()
}

#[test]
fn frames_are_sent_as_standard_base64() {
    let mut g = GpuDevice::new();
    g.resize(1, 1);
    g.update_region(0, 0, 1, 1, &[0xFB, 0xFF, 0xBF, 0x66]);
    assert_eq!(g.take_snapshot().unwrap().data, "+/+/Zg==");
    g.resize(2, 1);
    g.update_region(0, 0, 2, 1, b"foobar\0\0");
    assert_eq!(g.take_snapshot().unwrap().data, "Zm9vYmFyAAA=");
    g.resize(3, 1);
    g.update_region(0, 0, 3, 1, b"foobarbazqux");
    assert_eq!(g.take_snapshot().unwrap().data, "Zm9vYmFyYmF6cXV4");
}

#[test]
fn text_buffer_builds_utf8() {
    let mut t = TextBuf::new();
    t.push_str("port=");
    t.push_decimal(0);
    t.push_char(',');
    t.push_decimal(65535);
    t.push_char('é');
    t.push_char('€');
    t.push_char('😀');
    t.push_decimal(u64::MAX);
    assert_eq!(t.into_string(), "port=0,65535é€😀18446744073709551615");
}

#[test]
fn untitled_names() {
    assert_eq!(untitled_name(0, ""), "Untitled");
    assert_eq!(untitled_name(0, "md"), "Untitled.md");
    assert_eq!(untitled_name(12, "md"), "Untitled 12.md");
    assert_eq!(untitled_name(3, ""), "Untitled 3");
}

#[test]
fn next_untitled_skips_taken_names() {
    assert_eq!(next_untitled(&names(&["notes.json"])), "Untitled");
    assert_eq!(next_untitled(&names(&["Untitled.json", "Untitled 1.json", "Untitled 3.json"])), "Untitled 2");
    assert_eq!(next_untitled(&names(&["Untitled"])), "Untitled");
    assert_eq!(next_untitled_plain(&names(&["Untitled.md"]), "md"), "Untitled 1.md");
    assert_eq!(next_untitled_plain(&names(&["Untitled.md"]), ""), "Untitled");
    assert_eq!(next_untitled_plain(&names(&["Untitled", "Untitled 1"]), ""), "Untitled 2");
    assert_eq!(first_free_untitled(&names(&[]), b"json"), 0);
}

#[test]
fn item_names_are_sanitized() {
    assert_eq!(sanitize("a/b\\c:d*e?f\"g<h>i|j"), "a_b_c_d_e_f_g_h_i_j");
    assert_eq!(item_name("  my graph  "), Ok("my graph".to_string()));
    assert_eq!(item_name(" x/y "), Ok("x_y".to_string()));
    assert_eq!(item_name("   "), Err("Name cannot be empty".to_string()));
    assert_eq!(item_name("/"), Ok("_".to_string()));
    assert_eq!(rename_target("  new.json "), Ok("new.json"));
    assert_eq!(rename_target(" \t"), Err("Name cannot be empty".to_string()));
}

#[test]
fn input_events_become_backend_calls() {
    match backend_input(VmInputKind::KeyDown(0x61)) {
        BackendInput::Key { keysym, pressed } => assert_eq!((keysym, pressed), (0x61, true)),
        _ => panic!("key"),
    }
    match backend_input(VmInputKind::KeyUp(0xFF0D)) {
        BackendInput::Key { keysym, pressed } => assert_eq!((keysym, pressed), (0xFF0D, false)),
        _ => panic!("key"),
    }
    let cmd = |k: VmInputKind| match backend_input(k) {
        BackendInput::Mouse { x, y, cmd } => (x, y, cmd),
        _ => panic!("mouse"),
    };
    assert_eq!(cmd(VmInputKind::MouseMove(3, 4)), (3, 4, 0));
    assert_eq!(cmd(VmInputKind::MouseButton { x: 1, y: 2, button: 0, pressed: true }), (1, 2, 0x81));
    assert_eq!(cmd(VmInputKind::MouseButton { x: 1, y: 2, button: 2, pressed: false }), (1, 2, 0x44));
    assert_eq!(cmd(VmInputKind::MouseButton { x: 0, y: 0, button: 7, pressed: true }), (0, 0, 0x80));
    assert_eq!(cmd(VmInputKind::MouseWheel { dx: 0, dy: -1 }), (0, -1, 0x08));
}

#[test]
fn nic_indices_count_per_machine() {
    let mut t = VmIndexTable::new();
    assert_eq!(t.next_index("a"), 0);
    assert_eq!(t.next_index("a"), 1);
    assert_eq!(t.next_index("b"), 0);
    assert_eq!(t.next_index("a"), 2);
    assert_eq!(t.next_index("b"), 1);
}

#[test]
fn config_defaults() {
    assert_eq!(BootMode::default(), BootMode::Auto);
    let n = NetworkConfig::default();
    assert!(n.lan && n.internet && n.port_forwards.is_empty());
    assert!(InputConfig::default().keyboard_passthrough);
}

#[test]
fn ui_events_carry_their_fields() {
    let s = SerialEvent { vm_id: "v".to_string(), data: "out".to_string() };
    let c = ClipboardEvent { vm_id: "v".to_string(), text: "clip".to_string() };
    let st = VmStatusEvent { vm_id: "v".to_string(), state: "Running".to_string() };
    assert_eq!((s.clone().vm_id, s.data), ("v".to_string(), "out".to_string()));
    assert_eq!(c.clone().text, "clip");
    assert_eq!(st.clone().state, "Running");
}

#[test]
fn listing_puts_folders_first_then_names() {
    let key = |d: bool, n: &str| EntryKey { is_dir: d, name: n.to_string() };
    let keys = vec![key(false, "b.md"), key(true, "z"), key(false, "a.md"), key(true, "a"), key(false, "B.md"), key(false, "a.md")];
    assert_eq!(listing_order(&keys), vec![3, 1, 4, 2, 5, 0]);
    assert!(listing_order(&[]).is_empty());
}
