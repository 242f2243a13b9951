use knofoo_vm::virtio::p9::{
    error, make_qid, make_stat, read_dir_listing, read_file_slice, reply_attach, reply_mkdir,
    reply_open, reply_read, reply_remove, reply_stat, reply_walk, reply_write, P9Device, P9Op,
    QidInfo, StatInfo,
};

fn msg(t: u8, tag: u16, body: &[u8]) -> Vec<u8> {
    let mut m = ((7 + body.len()) as u32).to_le_bytes().to_vec();
    m.push(t);
    m.extend_from_slice(&tag.to_le_bytes());
    m.extend_from_slice(body);
    m
}

fn fid_body(fid: u32) -> Vec<u8> {
    fid.to_le_bytes().to_vec()
}

fn walk_body(fid: u32, newfid: u32, names: &[&str]) -> Vec<u8> {
    let mut b = fid.to_le_bytes().to_vec();
    b.extend_from_slice(&newfid.to_le_bytes());
    b.extend_from_slice(&(names.len() as u16).to_le_bytes());
    for n in names {
        b.extend_from_slice(&(n.len() as u16).to_le_bytes());
        b.extend_from_slice(n.as_bytes());
    }
    b
}

fn reply(op: P9Op) -> Vec<u8> {
    match op {
        P9Op::Reply(r) => r,
        _ => panic!("expected an immediate reply"),
    }
}

fn error_bytes(tag: u16, text: &str) -> Vec<u8> {
    let mut r = ((9 + text.len()) as u32).to_le_bytes().to_vec();
    r.push(107);
    r.extend_from_slice(&tag.to_le_bytes());
    r.extend_from_slice(&(text.len() as u16).to_le_bytes());
    r.extend_from_slice(text.as_bytes());
    r
}

fn attached(fid: u32) -> P9Device {
    let mut d = P9Device::new();
    match d.handle(&msg(104, 1, &fid_body(fid))) {
        P9Op::Attach { tag, path } => {
            assert_eq!(tag, 1);
            assert!(path.is_empty());
        }
        _ => panic!("expected attach"),
    }
    d
}

#[test]
fn p9_version_reply() {
    let mut d = P9Device::new();
    let r = reply(d.handle(&msg(100, 0xFFFF, &[])));
    let mut want = vec![21, 0, 0, 0, 101, 0xFF, 0xFF, 0, 0, 1, 0, 8, 0];
    want.extend_from_slice(b"9P2000.L");
    assert_eq!(r, want);
}

#[test]
fn p9_short_and_unknown_messages() {
    let mut d = P9Device::new();
    assert_eq!(reply(d.handle(&[1, 2, 3])), error_bytes(0, "short message"));
    assert_eq!(reply(d.handle(&msg(99, 4, &[]))), error_bytes(4, "unknown message"));
    assert_eq!(reply(d.handle(&msg(104, 2, &[1, 2]))), error_bytes(2, "short attach"));
}

#[test]
fn p9_walk_names_paths_from_root() {
    let mut d = attached(5);
    match d.handle(&msg(110, 3, &walk_body(5, 6, &["a", "b"]))) {
        P9Op::Walk { tag, paths } => {
            assert_eq!(tag, 3);
            assert_eq!(paths, vec![vec!["a".to_string()], vec!["a".to_string(), "b".to_string()]]);
        }
        _ => panic!("expected walk"),
    }
    match d.handle(&msg(124, 4, &fid_body(6))) {
        P9Op::Stat { tag, path } => {
            assert_eq!(tag, 4);
            assert_eq!(path, vec!["a".to_string(), "b".to_string()]);
        }
        _ => panic!("expected stat"),
    }
}

#[test]
fn p9_walk_stops_at_truncated_name() {
    let mut d = attached(1);
    let mut body = walk_body(1, 2, &["x", "long"]);
    body.truncate(body.len() - 2);
    match d.handle(&msg(110, 0, &body)) {
        P9Op::Walk { paths, .. } => assert_eq!(paths, vec![vec!["x".to_string()]]),
        _ => panic!("expected walk"),
    }
    match d.handle(&msg(124, 0, &fid_body(2))) {
        P9Op::Stat { path, .. } => assert_eq!(path, vec!["x".to_string()]),
        _ => panic!("expected stat"),
    }
}

#[test]
fn p9_walk_non_utf8_name_reads_question_mark() {
    let mut d = attached(1);
    let mut body = 1u32.to_le_bytes().to_vec();
    body.extend_from_slice(&2u32.to_le_bytes());
    body.extend_from_slice(&1u16.to_le_bytes());
    body.extend_from_slice(&2u16.to_le_bytes());
    body.extend_from_slice(&[0xFF, 0xFE]);
    match d.handle(&msg(110, 0, &body)) {
        P9Op::Walk { paths, .. } => assert_eq!(paths, vec![vec!["?".to_string()]]),
        _ => panic!("expected walk"),
    }
}

#[test]
fn p9_unknown_fid_is_reported() {
    let mut d = attached(1);
    assert_eq!(reply(d.handle(&msg(110, 8, &walk_body(9, 10, &[])))), error_bytes(8, "unknown fid"));
    assert_eq!(reply(d.handle(&msg(124, 8, &fid_body(9)))), error_bytes(8, "unknown fid"));
    assert_eq!(reply(d.handle(&msg(110, 8, &[0; 9]))), error_bytes(8, "short walk"));
}

#[test]
fn p9_open_read_and_write_name_the_path() {
    let mut d = attached(1);
    d.handle(&msg(110, 0, &walk_body(1, 2, &["f"])));
    let mut open = fid_body(2);
    open.extend_from_slice(&0u32.to_le_bytes());
    match d.handle(&msg(112, 5, &open)) {
        P9Op::Open { tag, path } => {
            assert_eq!(tag, 5);
            assert_eq!(path, vec!["f".to_string()]);
        }
        _ => panic!("expected open"),
    }
    let mut read = fid_body(2);
    read.extend_from_slice(&0x1_0000_0002u64.to_le_bytes());
    read.extend_from_slice(&100u32.to_le_bytes());
    match d.handle(&msg(116, 6, &read)) {
        P9Op::Read { tag, path, offset, count } => {
            assert_eq!((tag, offset, count), (6, 0x1_0000_0002, 100));
            assert_eq!(path, vec!["f".to_string()]);
        }
        _ => panic!("expected read"),
    }
    let mut write = fid_body(2);
    write.extend_from_slice(&7u64.to_le_bytes());
    write.extend_from_slice(&10u32.to_le_bytes());
    write.extend_from_slice(b"abc");
    match d.handle(&msg(118, 7, &write)) {
        P9Op::Write { tag, offset, data, .. } => {
            assert_eq!((tag, offset), (7, 7));
            assert_eq!(data, b"abc".to_vec());
        }
        _ => panic!("expected write"),
    }
}

#[test]
fn p9_clunked_fid_is_unknown() {
    let mut d = attached(1);
    let r = reply(d.handle(&msg(120, 2, &fid_body(1))));
    assert_eq!(r, vec![7, 0, 0, 0, 121, 2, 0]);
    let mut open = fid_body(1);
    open.extend_from_slice(&0u32.to_le_bytes());
    assert_eq!(reply(d.handle(&msg(112, 3, &open))), error_bytes(3, "unknown fid"));
}

#[test]
fn p9_remove_forgets_fid() {
    let mut d = attached(1);
    d.handle(&msg(110, 0, &walk_body(1, 2, &["gone"])));
    match d.handle(&msg(122, 1, &fid_body(2))) {
        P9Op::Remove { path, .. } => assert_eq!(path, vec!["gone".to_string()]),
        _ => panic!("expected remove"),
    }
    assert_eq!(reply(d.handle(&msg(124, 1, &fid_body(2)))), error_bytes(1, "unknown fid"));
}

#[test]
fn p9_mkdir_extends_the_directory_path() {
    let mut d = attached(1);
    let mut body = fid_body(1);
    body.extend_from_slice(&3u16.to_le_bytes());
    body.extend_from_slice(b"new");
    match d.handle(&msg(72, 9, &body)) {
        P9Op::Mkdir { tag, path } => {
            assert_eq!(tag, 9);
            assert_eq!(path, vec!["new".to_string()]);
        }
        _ => panic!("expected mkdir"),
    }
    let mut short = fid_body(1);
    short.extend_from_slice(&9u16.to_le_bytes());
    short.extend_from_slice(b"ab");
    assert_eq!(reply(d.handle(&msg(72, 9, &short))), error_bytes(9, "short mkdir name"));
}

#[test]
fn p9_qid_and_simple_replies() {
    let q = QidInfo { is_dir: true, path_hash: 0x0102_0304_0506_0708 };
    assert_eq!(make_qid(q), [0x80, 0, 0, 0, 0, 8, 7, 6, 5, 4, 3, 2, 1]);
    let r = reply_attach(3, q);
    assert_eq!(&r[0..7], &[20, 0, 0, 0, 105, 3, 0]);
    assert_eq!(&r[7..], &make_qid(q));
    let o = reply_open(3, q);
    assert_eq!(&o[0..7], &[24, 0, 0, 0, 113, 3, 0]);
    assert_eq!(&o[20..], &[0, 0, 0, 0]);
    let file = QidInfo { is_dir: false, path_hash: 1 };
    let w = reply_walk(4, &[q, file]);
    assert_eq!(&w[0..9], &[35, 0, 0, 0, 111, 4, 0, 2, 0]);
    assert_eq!(&w[9..22], &make_qid(q));
    assert_eq!(&w[22..35], &make_qid(file));
    assert_eq!(error(1, "x"), vec![10, 0, 0, 0, 107, 1, 0, 1, 0, b'x']);
}

#[test]
fn p9_stat_record_layout() {
    let st = StatInfo {
        name: "f".to_string(),
        size: 3,
        is_dir: false,
        qid: QidInfo { is_dir: false, path_hash: 0x0102_0304_0506_0708 },
    };
    let s = make_stat(&st);
    let mut want = vec![0, 0, 0, 0, 0, 0];
    want.extend_from_slice(&[0, 0, 0, 0, 0, 8, 7, 6, 5, 4, 3, 2, 1]);
    want.extend_from_slice(&[0xA4, 0x01, 0, 0]);
    want.extend_from_slice(&[0; 8]);
    want.extend_from_slice(&[3, 0, 0, 0, 0, 0, 0, 0]);
    want.extend_from_slice(&[1, 0, b'f']);
    for _ in 0..3 {
        want.extend_from_slice(&[4, 0, b'r', b'o', b'o', b't']);
    }
    assert_eq!(s, want);
    let dir = StatInfo { name: "d".to_string(), size: 0, is_dir: true, qid: QidInfo { is_dir: true, path_hash: 0 } };
    assert_eq!(&make_stat(&dir)[19..23], &[0xED, 0x01, 0x00, 0x80]);
    let r = reply_stat(2, &st);
    assert_eq!(&r[0..9], &[69, 0, 0, 0, 125, 2, 0, 60, 0]);
    assert_eq!(&r[9..], &s[..]);
}

#[test]
fn p9_file_read_slices() {
    assert_eq!(read_file_slice(b"hello world", 6, 100), b"world".to_vec());
    assert_eq!(read_file_slice(b"hello", 1, 2), b"el".to_vec());
    assert!(read_file_slice(b"hello", 5, 1).is_empty());
    assert!(read_file_slice(b"hello", 1 << 40, u32::MAX).is_empty());
    let r = reply_read(1, b"ab");
    assert_eq!(r, vec![13, 0, 0, 0, 117, 1, 0, 2, 0, 0, 0, b'a', b'b']);
}

#[test]
fn p9_directory_listing_offset_and_limit() {
    let entry = |n: &str| StatInfo {
        name: n.to_string(),
        size: 0,
        is_dir: false,
        qid: QidInfo { is_dir: false, path_hash: 0 },
    };
    let entries = vec![entry("a"), entry("b"), entry("c")];
    let b = make_stat(&entries[1]);
    let one = read_dir_listing(&entries, 1, 1);
    let mut want = vec![60, 0];
    want.extend_from_slice(&b);
    assert_eq!(one, want);
    let all = read_dir_listing(&entries, 0, 10_000);
    assert_eq!(all.len(), 3 * 62);
    assert!(read_dir_listing(&entries, 3, 10_000).is_empty());
    assert!(read_dir_listing(&entries, 0, 0).is_empty());
}

#[test]
fn p9_outcome_replies() {
    assert_eq!(reply_write(5, Ok(3)), vec![11, 0, 0, 0, 119, 5, 0, 3, 0, 0, 0]);
    assert_eq!(reply_write(5, Err("denied".to_string())), error_bytes(5, "denied"));
    assert_eq!(reply_remove(6, Ok(())), vec![7, 0, 0, 0, 123, 6, 0]);
    assert_eq!(reply_remove(6, Err("busy".to_string())), error_bytes(6, "busy"));
    let q = QidInfo { is_dir: true, path_hash: 9 };
    let m = reply_mkdir(7, Ok(q));
    assert_eq!(&m[0..7], &[20, 0, 0, 0, 73, 7, 0]);
    assert_eq!(&m[7..], &make_qid(q));
    assert_eq!(reply_mkdir(7, Err("exists".to_string())), error_bytes(7, "exists"));
}

#[test]
fn p9_replies_carry_their_length_type_and_tag() {
    let replies = vec![
        (error(3, "no such file"), 107u8, 3u16),
        (reply_read(9, &[1, 2, 3, 4, 5]), 117, 9),
        (reply_write(12, Ok(40)), 119, 12),
    ];
    for (r, t, tag) in replies {
        assert_eq!(u32::from_le_bytes([r[0], r[1], r[2], r[3]]) as usize, r.len());
        assert_eq!(r[4], t);
        assert_eq!(u16::from_le_bytes([r[5], r[6]]), tag);
    }
}
