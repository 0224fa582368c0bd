use easytier_ssh::sftp::{
    code_for, status, DirBatch, IoError, IoErrorKind, Sftp, SftpEvent, SftpHandle, SftpStep,
};
use easytier_ssh::sftp_attrs::{
    attrs_bytes, longname, mode_string, name_payload_bytes, permission_mode, times, FileMeta,
    NameEntry,
};
use easytier_ssh::sftp_path::{from_sftp_path, resolve, strip_verbatim, to_sftp_path, ResolvedPath};
use easytier_ssh::sftp_request::{
    classify, decode_request, open_flags, packet_len, Incoming, Request,
};
use easytier_ssh::wire::{wire, Cur, Pkt};

fn meta() -> FileMeta {
    FileMeta {
        size: 0x0102_0304_0506_0708,
        permissions: 0o100644,
        is_dir: false,
        is_symlink: false,
        atime: 1,
        mtime: 2,
    }
}

fn text(s: &str) -> Vec<u8> {
    let mut p = Pkt::new();
    p.string(s.as_bytes());
    p.buf
}

fn request(typ: u8, payload: &[u8]) -> Request {
    match decode_request(typ, payload) {
        Some(r) => r,
        None => panic!("too short"),
    }
}

fn reply(step: Option<SftpStep>) -> Vec<u8> {
    match step {
        Some(SftpStep::Reply(r)) => r,
        _ => panic!("no reply"),
    }
}

fn failed(kind: IoErrorKind) -> IoError {
    IoError { kind, message: "no".to_string() }
}

fn opened(s: &mut Sftp, h: SftpHandle) -> String {
    let r = s.finish(9, SftpEvent::Opened(Ok(h)));
    let mut c = Cur::new(&r);
    c.take_u32();
    assert_eq!(c.take_u8(), 102);
    assert_eq!(c.take_u32(), 9);
    String::from_utf8(c.take_string().to_vec()).unwrap()
}

#[test]
fn numbers_and_strings_round_trip() {
    let mut p = Pkt::new();
    p.u8(7);
    p.u32(0x0102_0304);
    p.u64(u64::MAX - 1);
    p.string(b"abc");
    p.bytes(&[9]);
    assert_eq!(p.buf[..5], [7, 1, 2, 3, 4]);
    let mut c = Cur::new(&p.buf);
    assert_eq!(c.take_u8(), 7);
    assert_eq!(c.take_u32(), 0x0102_0304);
    assert_eq!(c.take_u64(), u64::MAX - 1);
    assert_eq!(c.take_string(), b"abc");
    assert!(c.remains(1) && !c.remains(2));
}

#[test]
fn packets_are_framed() {
    assert_eq!(wire(101, 0x0a0b_0c0d, &[1, 2]), [0, 0, 0, 7, 101, 10, 11, 12, 13, 1, 2]);
    let p = wire(5, 6, b"xyz");
    assert_eq!(packet_len(&p[..4]) as usize, p.len() - 4);
    match classify(&p[4..]) {
        Incoming::Request { typ, req_id, payload } => {
            assert_eq!((typ, req_id, payload.as_slice()), (5, 6, &b"xyz"[..]))
        }
        _ => panic!("no request"),
    }
}

#[test]
fn attributes_round_trip() {
    let b = attrs_bytes(&meta());
    assert_eq!(
        b,
        [0, 0, 0, 13, 1, 2, 3, 4, 5, 6, 7, 8, 0, 0, 0o201, 0o244, 0, 0, 0, 1, 0, 0, 0, 2]
    );
    let mut c = Cur::new(&b);
    assert!(c.attrs_remain());
    let a = c.take_attrs();
    assert_eq!(a.size, Some(0x0102_0304_0506_0708));
    assert_eq!(a.permissions, Some(0o100644));
    assert_eq!((a.atime, a.mtime), (Some(1), Some(2)));
}

#[test]
fn attributes_may_be_absent() {
    let mut c = Cur::new(&[0, 0, 0, 0]);
    let a = c.take_attrs();
    assert!(a.size.is_none() && a.permissions.is_none() && a.atime.is_none() && a.mtime.is_none());
    let owner = [0, 0, 0, 6, 0, 0, 0, 1, 0, 0, 0, 2, 0, 0, 1, 255];
    let mut c = Cur::new(&owner);
    assert_eq!(c.take_attrs().permissions, Some(511));
    assert!(!Cur::new(&owner[..15]).attrs_remain());
}

#[test]
fn verbatim_prefixes_are_stripped() {
    assert_eq!(strip_verbatim(r"\\?\C:\foo"), r"C:\foo");
    assert_eq!(strip_verbatim(r"\\?\UNC\server\share"), r"\\server\share");
    assert_eq!(strip_verbatim("/home/user"), "/home/user");
    assert_eq!(strip_verbatim(r"C:\foo"), r"C:\foo");
}

#[test]
fn paths_for_clients() {
    assert_eq!(to_sftp_path(r"\\?\C:\foo"), "/C:/foo");
    assert_eq!(to_sftp_path(r"C:\foo\bar"), "/C:/foo/bar");
    assert_eq!(to_sftp_path("C:"), "/C:");
    assert_eq!(to_sftp_path("/home/user"), "/home/user");
    assert_eq!(to_sftp_path(r"\\?\UNC\server\share"), "//server/share");
    assert_eq!(to_sftp_path("1:/x"), "1:/x");
    assert_eq!(to_sftp_path(""), "");
}

#[test]
fn paths_from_clients() {
    assert_eq!(from_sftp_path("/C:/foo", true), r"C:\foo");
    assert_eq!(from_sftp_path("C:", true), r"C:\");
    assert_eq!(from_sftp_path("/C:", true), r"C:\");
    assert_eq!(from_sftp_path("/home/x", true), r"\home\x");
    assert_eq!(from_sftp_path("/C:/foo", false), "/C:/foo");
    assert_eq!(from_sftp_path(r"a\b", false), r"a\b");
    for p in [r"C:\foo\bar", r"\\server\share", "relative", r"C:\"] {
        assert_eq!(from_sftp_path(&to_sftp_path(p), true), p);
    }
    for q in ["/C:/foo", "/x/y", "."] {
        assert_eq!(to_sftp_path(&from_sftp_path(q, true)), q);
    }
}

#[test]
fn paths_are_resolved() {
    assert!(matches!(resolve(String::new(), false), ResolvedPath::Root));
    assert!(matches!(resolve(".".to_string(), false), ResolvedPath::Root));
    match resolve("/etc".to_string(), true) {
        ResolvedPath::Absolute(p) => assert_eq!(p, "/etc"),
        _ => panic!("not absolute"),
    }
    match resolve("a/b".to_string(), false) {
        ResolvedPath::Relative(p) => assert_eq!(p, "a/b"),
        _ => panic!("not relative"),
    }
}

#[test]
fn modes_and_times() {
    assert_eq!(permission_mode(Some(0o100600), true, false), 0o100600);
    assert_eq!(permission_mode(None, true, false), 0o40755);
    assert_eq!(permission_mode(None, false, true), 0o120777);
    assert_eq!(permission_mode(None, false, false), 0o100644);
    assert_eq!(mode_string(0o754), "rwxr-xr--");
    assert_eq!(mode_string(0o100000), "---------");
    assert_eq!(times(Some(5), None), (5, 0));
    assert_eq!(times(Some(0x1_0000_0002), Some(3)), (2, 3));
}

#[test]
fn long_names() {
    let mut m = meta();
    m.size = 1234;
    assert_eq!(longname("a b", &m), "- rw-r--r-- 1 user group 1234 Jan 1 1970 a b");
    m.is_dir = true;
    assert!(longname("d", &m).starts_with("d rw-"));
    m.is_dir = false;
    m.is_symlink = true;
    assert!(longname("l", &m).starts_with("l rw-"));
}

#[test]
fn hello_and_malformed_packets() {
    match classify(&[1, 0, 0, 0, 3]) {
        Incoming::Hello(r) => assert_eq!(r, [0, 0, 0, 5, 2, 0, 0, 0, 3]),
        _ => panic!("no hello"),
    }
    assert!(matches!(classify(&[1]), Incoming::Hello(_)));
    assert!(matches!(classify(&[]), Incoming::Skip));
    assert!(matches!(classify(&[3, 0, 0, 0]), Incoming::Skip));
    assert_eq!(packet_len(&[0, 0, 1, 2]), 258);
}

#[test]
fn requests_are_decoded() {
    let one = text("a/b");
    match request(16, &one) {
        Request::Realpath { path } => assert_eq!(path, "a/b"),
        _ => panic!("another request"),
    }
    match request(17, &one) {
        Request::Stat { path, follow_links } => assert!(path == "a/b" && follow_links),
        _ => panic!("another request"),
    }
    match request(7, &one) {
        Request::Stat { path, follow_links } => assert!(path == "a/b" && !follow_links),
        _ => panic!("another request"),
    }
    assert!(matches!(request(11, &one), Request::Opendir { .. }));
    assert!(matches!(request(12, &one), Request::Readdir { .. }));
    assert!(matches!(request(4, &one), Request::Close { .. }));
    assert!(matches!(request(13, &one), Request::Remove { .. }));
    assert!(matches!(request(15, &one), Request::Rmdir { .. }));
    assert!(matches!(request(8, &one), Request::Fstat { .. }));
    assert!(matches!(request(19, &one), Request::Readlink { .. }));
    assert!(matches!(request(10, &[]), Request::Fsetstat));
    assert!(matches!(request(200, &[]), Request::Unsupported));
}

#[test]
fn requests_with_more_fields() {
    let mut p = Pkt::new();
    p.string(b"f");
    p.u32(0x3a);
    p.u32(0);
    match request(3, &p.buf) {
        Request::Open { path, flags } => {
            assert_eq!(path, "f");
            assert!(flags == open_flags(0x3a));
            assert!(!flags.read && flags.write && !flags.append);
            assert!(flags.create && flags.truncate && flags.create_new);
        }
        _ => panic!("another request"),
    }
    assert!(open_flags(1).read && open_flags(4).append);
    let mut p = Pkt::new();
    p.string(b"h1");
    p.u64(77);
    p.u32(10);
    match request(5, &p.buf) {
        Request::Read { handle, offset, len } => {
            assert_eq!((handle.as_str(), offset, len), ("h1", 77, 10))
        }
        _ => panic!("another request"),
    }
    let mut p = Pkt::new();
    p.string(b"h1");
    p.u64(77);
    p.string(b"data");
    match request(6, &p.buf) {
        Request::Write { handle, offset, data } => {
            assert_eq!((handle.as_str(), offset, data.as_slice()), ("h1", 77, &b"data"[..]))
        }
        _ => panic!("another request"),
    }
    let mut p = Pkt::new();
    p.string(b"a");
    p.string(b"b\xff");
    match request(18, &p.buf) {
        Request::Rename { from, to } => assert_eq!((from.as_str(), to.as_str()), ("a", "b\u{fffd}")),
        _ => panic!("another request"),
    }
    match request(20, &p.buf) {
        Request::Symlink { target, link } => {
            assert_eq!((target.as_str(), link.as_str()), ("a", "b\u{fffd}"))
        }
        _ => panic!("another request"),
    }
    let mut p = Pkt::new();
    p.string(b"a");
    p.u32(4);
    p.u32(0o600);
    match request(9, &p.buf) {
        Request::Setstat { path, permissions } => {
            assert_eq!((path.as_str(), permissions), ("a", Some(0o600)))
        }
        _ => panic!("another request"),
    }
    assert!(matches!(request(14, &p.buf), Request::Mkdir { .. }));
}

#[test]
fn short_requests_are_noticed() {
    assert!(decode_request(16, &[0, 0, 0, 2, 97]).is_none());
    assert!(decode_request(18, &text("only")).is_none());
    assert!(decode_request(5, &text("h1")).is_none());
    assert!(decode_request(14, &text("d")).is_none());
    let mut s = Sftp::new();
    assert!(s.handle(4, 1, &[]).is_none());
}

#[test]
fn status_replies() {
    let mut expected = vec![0, 0, 0, 27, 101, 0, 0, 0, 5, 0, 0, 0, 4];
    expected.extend_from_slice(&[0, 0, 0, 5]);
    expected.extend_from_slice(b"wrong");
    expected.extend_from_slice(&[0, 0, 0, 5]);
    expected.extend_from_slice(b"en-US");
    assert_eq!(status(5, 4, "wrong"), expected);
    assert_eq!(code_for(&failed(IoErrorKind::NotFound)), 2);
    assert_eq!(code_for(&failed(IoErrorKind::PermissionDenied)), 3);
    assert_eq!(code_for(&failed(IoErrorKind::Other)), 4);
}

#[test]
fn handles_live_until_closed() {
    let mut s = Sftp::new();
    assert!(s.has_free_handle());
    assert_eq!(opened(&mut s, SftpHandle::File), "h1");
    assert_eq!(opened(&mut s, SftpHandle::Dir { len: 2, idx: 0 }), "h2");
    assert!(s.lookup("h1") == Some(SftpHandle::File));
    assert!(matches!(s.handle(8, 3, &text("h1")), Some(SftpStep::Perform(Request::Fstat { .. }))));
    assert_eq!(reply(s.handle(8, 3, &text("h2"))), status(3, 4, "invalid handle"));
    assert_eq!(reply(s.handle(12, 3, &text("h1"))), status(3, 4, "invalid handle"));
    assert_eq!(reply(s.handle(4, 4, &text("h1"))), status(4, 0, "OK"));
    assert_eq!(reply(s.handle(8, 5, &text("h1"))), status(5, 4, "invalid handle"));
    assert_eq!(reply(s.handle(4, 6, &text("h1"))), status(6, 0, "OK"));
    assert!(s.lookup("h1").is_none());
    assert!(s.lookup("h2") == Some(SftpHandle::Dir { len: 2, idx: 0 }));
    assert_eq!(opened(&mut s, SftpHandle::File), "h3");
    assert_eq!(s.gen_handle(SftpHandle::File), "h4");
}

#[test]
fn requests_without_file_system() {
    let mut s = Sftp::new();
    assert_eq!(reply(s.handle(10, 1, &[])), status(1, 0, "OK"));
    assert_eq!(reply(s.handle(99, 2, &[])), status(2, 8, "operation unsupported"));
    let mut p = Pkt::new();
    p.string(b"a");
    p.u32(0);
    assert_eq!(reply(s.handle(9, 3, &p.buf)), status(3, 0, "OK"));
}

#[test]
fn reports_become_replies() {
    let mut s = Sftp::new();
    assert_eq!(s.finish(1, SftpEvent::Done(Ok(()))), status(1, 0, "OK"));
    assert_eq!(
        s.finish(1, SftpEvent::Done(Err(failed(IoErrorKind::NotFound)))),
        status(1, 2, "no")
    );
    assert_eq!(
        s.finish(1, SftpEvent::Opened(Err(failed(IoErrorKind::PermissionDenied)))),
        status(1, 3, "no")
    );
    assert_eq!(
        s.finish(1, SftpEvent::Stat(Err(failed(IoErrorKind::NotFound)))),
        status(1, 2, "no")
    );
    assert_eq!(
        s.finish(1, SftpEvent::FileStat(Err(failed(IoErrorKind::NotFound)))),
        status(1, 4, "no")
    );
    assert_eq!(s.finish(1, SftpEvent::Data(Ok(Vec::new()))), status(1, 1, "EOF"));
    assert_eq!(
        s.finish(1, SftpEvent::Data(Err(failed(IoErrorKind::NotFound)))),
        status(1, 4, "no")
    );
    assert_eq!(s.finish(1, SftpEvent::Written(Ok(()))), status(1, 0, "OK"));
    assert_eq!(
        s.finish(1, SftpEvent::Written(Err(failed(IoErrorKind::NotFound)))),
        status(1, 4, "no")
    );
    assert_eq!(s.finish(1, SftpEvent::PermissionsSet), status(1, 0, "OK"));
    assert_eq!(s.finish(2, SftpEvent::Data(Ok(vec![1, 2]))), wire(103, 2, &[0, 0, 0, 2, 1, 2]));
    assert_eq!(s.finish(2, SftpEvent::Stat(Ok(meta()))), wire(105, 2, &attrs_bytes(&meta())));
    assert_eq!(s.finish(2, SftpEvent::FileStat(Ok(meta()))), wire(105, 2, &attrs_bytes(&meta())));
}

#[test]
fn found_paths_are_named() {
    let mut s = Sftp::new();
    let mut p = Pkt::new();
    p.u32(1);
    p.string(b"/C:/foo");
    p.string(b"/C:/foo");
    p.u32(0);
    let r = s.finish(8, SftpEvent::PathFound(Ok((r"\\?\C:\foo".to_string(), None))));
    assert_eq!(r, wire(104, 8, &p.buf));
    let mut p = Pkt::new();
    p.u32(1);
    p.string(b"/x");
    p.string(longname("/x", &meta()).as_bytes());
    p.bytes(&attrs_bytes(&meta()));
    let r = s.finish(8, SftpEvent::PathFound(Ok(("/x".to_string(), Some(meta())))));
    assert_eq!(r, wire(104, 8, &p.buf));
    let r = s.finish(8, SftpEvent::PathFound(Err(failed(IoErrorKind::NotFound))));
    assert_eq!(r, status(8, 2, "no"));
}

#[test]
fn names_can_be_read_with_and_without_metadata() {
    let names = vec![
        NameEntry { filename: "known".to_string(), meta: Some(meta()) },
        NameEntry { filename: "gone".to_string(), meta: None },
        NameEntry { filename: "last".to_string(), meta: Some(meta()) },
    ];
    let b = name_payload_bytes(&names);
    let mut c = Cur::new(&b);
    assert_eq!(c.take_u32(), 3);
    for name in &names {
        assert_eq!(c.take_string(), name.filename.as_bytes());
        let long = c.take_string();
        let attrs = c.take_attrs();
        match &name.meta {
            Some(m) => {
                assert_eq!(long, longname(&name.filename, m).as_bytes());
                assert_eq!(attrs.size, Some(m.size));
            }
            None => {
                assert_eq!(long, name.filename.as_bytes());
                assert!(attrs.size.is_none() && attrs.permissions.is_none());
            }
        }
    }
    assert!(!c.remains(1));
}

#[test]
fn closed_names_are_not_given_out_again() {
    let mut s = Sftp::new();
    let first = opened(&mut s, SftpHandle::File);
    s.handle(4, 1, &text(&first));
    for _ in 0..20 {
        assert_ne!(s.next_handle(), first);
        let name = opened(&mut s, SftpHandle::Dir { len: 0, idx: 0 });
        assert_ne!(name, first);
        assert!(s.lookup(&first).is_none());
        let (names, _) = read_names(&mut s, &name, &[]);
        assert!(names.is_empty() && s.lookup(&name).is_none());
        assert_eq!(reply(s.handle(8, 2, &text(&first))), status(2, 4, "invalid handle"));
    }
}

#[test]
fn replies_are_framed_packets() {
    let mut s = Sftp::new();
    let mut replies = vec![reply(s.handle(99, 77, &[])), reply(s.handle(10, 77, &[]))];
    for event in [
        SftpEvent::Opened(Ok(SftpHandle::File)),
        SftpEvent::Data(Ok(vec![1, 2, 3])),
        SftpEvent::PathFound(Ok(("/x".to_string(), None))),
        SftpEvent::Stat(Ok(meta())),
    ] {
        replies.push(s.finish(77, event));
    }
    let types: Vec<u8> = replies.iter().map(|r| r[4]).collect();
    assert_eq!(types, [101, 101, 102, 103, 104, 105]);
    for r in replies {
        let mut c = Cur::new(&r);
        assert_eq!(c.take_u32() as usize, r.len() - 4);
        c.take_u8();
        assert_eq!(c.take_u32(), 77);
    }
}

fn read_names(s: &mut Sftp, handle: &str, readable: &[bool]) -> (Vec<String>, Vec<u8>) {
    let mut batch: DirBatch = match s.handle(12, 1, &text(handle)) {
        Some(SftpStep::List(b)) => b,
        _ => panic!("no listing"),
    };
    let mut names = Vec::new();
    while let Some(i) = s.next_entry(&batch) {
        if readable[i] {
            names.push(format!("f{i}"));
            batch.add_name(NameEntry { filename: format!("f{i}"), meta: None });
        }
    }
    let r = s.finish_batch(1, &batch);
    (names, r)
}

#[test]
fn directories_are_listed_in_batches() {
    let mut s = Sftp::new();
    let readable: Vec<bool> = (0..250).map(|i| i % 5 != 0).collect();
    let h = opened(&mut s, SftpHandle::Dir { len: readable.len(), idx: 0 });
    let mut all = Vec::new();
    for expected in [100, 100, 0] {
        let (names, r) = read_names(&mut s, &h, &readable);
        assert_eq!(names.len(), expected);
        if expected == 0 {
            assert_eq!(r, status(1, 1, "end of directory"));
        } else {
            assert_eq!(r[4], 104);
        }
        all.extend(names);
    }
    let wanted: Vec<String> =
        (0..250).filter(|i| i % 5 != 0).map(|i| format!("f{i}")).collect();
    assert_eq!(all, wanted);
    assert!(s.lookup(&h).is_none());
    assert_eq!(reply(s.handle(12, 2, &text(&h))), status(2, 4, "invalid handle"));
}
