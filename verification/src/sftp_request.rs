//! Packets and requests that an SFTP client sends.
use vstd::prelude::*;
use vstd::slice::*;
use crate::text::from_utf8_lossy;
use crate::wire::{
    Cur, Pkt, ATTR_ACMODTIME, ATTR_PERMISSIONS, ATTR_SIZE, ATTR_UIDGID, SFTP_VERSION,
    SSH_FXP_CLOSE, SSH_FXP_FSETSTAT, SSH_FXP_FSTAT, SSH_FXP_INIT, SSH_FXP_LSTAT, SSH_FXP_MKDIR,
    SSH_FXP_OPEN, SSH_FXP_OPENDIR, SSH_FXP_READ, SSH_FXP_READDIR, SSH_FXP_READLINK,
    SSH_FXP_REALPATH, SSH_FXP_REMOVE, SSH_FXP_RENAME, SSH_FXP_RMDIR, SSH_FXP_SETSTAT,
    SSH_FXP_STAT, SSH_FXP_SYMLINK, SSH_FXP_VERSION, SSH_FXP_WRITE,
};

verus! {

// file open flags
pub const OPEN_READ: u32 = 0x0000_0001;
pub const OPEN_WRITE: u32 = 0x0000_0002;
pub const OPEN_APPEND: u32 = 0x0000_0004;
pub const OPEN_CREAT: u32 = 0x0000_0008;
pub const OPEN_TRUNC: u32 = 0x0000_0010;
pub const OPEN_EXCL: u32 = 0x0000_0020;

/// How a file is to be opened.
#[derive(Clone, Copy, PartialEq, Eq, Structural)]
pub struct OpenFlags {
    pub read: bool,
    pub write: bool,
    pub append: bool,
    pub create: bool,
    pub truncate: bool,
    pub create_new: bool,
}

/// The open options that the flag bits of an open request stand for.
pub open spec fn open_flags_of(bits: u32) -> OpenFlags {
    OpenFlags {
        read: bits & OPEN_READ != 0,
        write: bits & OPEN_WRITE != 0,
        append: bits & OPEN_APPEND != 0,
        create: bits & OPEN_CREAT != 0,
        truncate: bits & OPEN_TRUNC != 0,
        create_new: bits & OPEN_EXCL != 0,
    }
}

/// Reads the flag bits of an open request.
pub fn open_flags(bits: u32) -> (r: OpenFlags)
    ensures
        r == open_flags_of(bits),
{
    OpenFlags {
        read: bits & OPEN_READ != 0,
        write: bits & OPEN_WRITE != 0,
        append: bits & OPEN_APPEND != 0,
        create: bits & OPEN_CREAT != 0,
        truncate: bits & OPEN_TRUNC != 0,
        create_new: bits & OPEN_EXCL != 0,
    }
}

/// A request of the client.
pub enum Request {
    Realpath { path: String },
    Stat { path: String, follow_links: bool },
    Opendir { path: String },
    Readdir { handle: String },
    Open { path: String, flags: OpenFlags },
    Read { handle: String, offset: u64, len: u32 },
    Write { handle: String, offset: u64, data: Vec<u8> },
    Close { handle: String },
    Mkdir { path: String },
    Rmdir { path: String },
    Remove { path: String },
    Rename { from: String, to: String },
    Setstat { path: String, permissions: Option<u32> },
    Fstat { handle: String },
    Fsetstat,
    Readlink { path: String },
    Symlink { target: String, link: String },
    Unsupported,
}

/// The contents of a `Request`.
pub enum RequestView {
    Realpath { path: Seq<char> },
    Stat { path: Seq<char>, follow_links: bool },
    Opendir { path: Seq<char> },
    Readdir { handle: Seq<char> },
    Open { path: Seq<char>, flags: OpenFlags },
    Read { handle: Seq<char>, offset: u64, len: u32 },
    Write { handle: Seq<char>, offset: u64, data: Seq<u8> },
    Close { handle: Seq<char> },
    Mkdir { path: Seq<char> },
    Rmdir { path: Seq<char> },
    Remove { path: Seq<char> },
    Rename { from: Seq<char>, to: Seq<char> },
    Setstat { path: Seq<char>, permissions: Option<u32> },
    Fstat { handle: Seq<char> },
    Fsetstat,
    Readlink { path: Seq<char> },
    Symlink { target: Seq<char>, link: Seq<char> },
    Unsupported,
}

impl View for Request {
    type V = RequestView;

    open spec fn view(&self) -> RequestView {
        match *self {
            Request::Realpath { path } => RequestView::Realpath { path: path@ },
            Request::Stat { path, follow_links } => RequestView::Stat { path: path@, follow_links },
            Request::Opendir { path } => RequestView::Opendir { path: path@ },
            Request::Readdir { handle } => RequestView::Readdir { handle: handle@ },
            Request::Open { path, flags } => RequestView::Open { path: path@, flags },
            Request::Read { handle, offset, len } => RequestView::Read {
                handle: handle@,
                offset,
                len,
            },
            Request::Write { handle, offset, data } => RequestView::Write {
                handle: handle@,
                offset,
                data: data@,
            },
            Request::Close { handle } => RequestView::Close { handle: handle@ },
            Request::Mkdir { path } => RequestView::Mkdir { path: path@ },
            Request::Rmdir { path } => RequestView::Rmdir { path: path@ },
            Request::Remove { path } => RequestView::Remove { path: path@ },
            Request::Rename { from, to } => RequestView::Rename { from: from@, to: to@ },
            Request::Setstat { path, permissions } => RequestView::Setstat {
                path: path@,
                permissions,
            },
            Request::Fstat { handle } => RequestView::Fstat { handle: handle@ },
            Request::Fsetstat => RequestView::Fsetstat,
            Request::Readlink { path } => RequestView::Readlink { path: path@ },
            Request::Symlink { target, link } => RequestView::Symlink {
                target: target@,
                link: link@,
            },
            Request::Unsupported => RequestView::Unsupported,
        }
    }
}

/// The text of the string at `pos` of a payload.
pub open spec fn text_at(s: Seq<u8>, pos: int) -> Seq<char> {
    crate::text::lossy_text(crate::wire::string_at(s, pos))
}

/// Two strings can be read at the start of `s`.
pub open spec fn has_two_strings(s: Seq<u8>) -> bool {
    crate::wire::has_string(s, 0) && crate::wire::has_string(s, crate::wire::string_end(s, 0))
}

/// The request in a payload of the given type; nothing where the payload ends
/// before the fields of the request do.
pub open spec fn decoded(typ: u8, s: Seq<u8>) -> Option<RequestView> {
    let first = text_at(s, 0);
    let p = crate::wire::string_end(s, 0);
    let one = crate::wire::has_string(s, 0);
    if typ == SSH_FXP_REALPATH {
        if one { Some(RequestView::Realpath { path: first }) } else { None }
    } else if typ == SSH_FXP_STAT {
        if one { Some(RequestView::Stat { path: first, follow_links: true }) } else { None }
    } else if typ == SSH_FXP_LSTAT {
        if one { Some(RequestView::Stat { path: first, follow_links: false }) } else { None }
    } else if typ == SSH_FXP_OPENDIR {
        if one { Some(RequestView::Opendir { path: first }) } else { None }
    } else if typ == SSH_FXP_READDIR {
        if one { Some(RequestView::Readdir { handle: first }) } else { None }
    } else if typ == SSH_FXP_OPEN {
        if one && crate::wire::has_bytes(s, p, 4) && crate::wire::has_attrs(s, p + 4) {
            Some(
                RequestView::Open {
                    path: first,
                    flags: open_flags_of(crate::wire::number_at(s, p, 4) as u32),
                },
            )
        } else {
            None
        }
    } else if typ == SSH_FXP_READ {
        if one && crate::wire::has_bytes(s, p, 12) {
            Some(
                RequestView::Read {
                    handle: first,
                    offset: crate::wire::number_at(s, p, 8) as u64,
                    len: crate::wire::number_at(s, p + 8, 4) as u32,
                },
            )
        } else {
            None
        }
    } else if typ == SSH_FXP_WRITE {
        if one && crate::wire::has_bytes(s, p, 8) && crate::wire::has_string(s, p + 8) {
            Some(
                RequestView::Write {
                    handle: first,
                    offset: crate::wire::number_at(s, p, 8) as u64,
                    data: crate::wire::string_at(s, p + 8),
                },
            )
        } else {
            None
        }
    } else if typ == SSH_FXP_CLOSE {
        if one { Some(RequestView::Close { handle: first }) } else { None }
    } else if typ == SSH_FXP_MKDIR {
        if one && crate::wire::has_attrs(s, p) {
            Some(RequestView::Mkdir { path: first })
        } else {
            None
        }
    } else if typ == SSH_FXP_RMDIR {
        if one { Some(RequestView::Rmdir { path: first }) } else { None }
    } else if typ == SSH_FXP_REMOVE {
        if one { Some(RequestView::Remove { path: first }) } else { None }
    } else if typ == SSH_FXP_RENAME {
        if has_two_strings(s) {
            Some(RequestView::Rename { from: first, to: text_at(s, p) })
        } else {
            None
        }
    } else if typ == SSH_FXP_SETSTAT {
        if one && crate::wire::has_attrs(s, p) {
            Some(
                RequestView::Setstat {
                    path: first,
                    permissions: crate::wire::attrs_at(s, p).permissions,
                },
            )
        } else {
            None
        }
    } else if typ == SSH_FXP_FSTAT {
        if one { Some(RequestView::Fstat { handle: first }) } else { None }
    } else if typ == SSH_FXP_FSETSTAT {
        Some(RequestView::Fsetstat)
    } else if typ == SSH_FXP_READLINK {
        if one { Some(RequestView::Readlink { path: first }) } else { None }
    } else if typ == SSH_FXP_SYMLINK {
        if has_two_strings(s) {
            Some(RequestView::Symlink { target: first, link: text_at(s, p) })
        } else {
            None
        }
    } else {
        Some(RequestView::Unsupported)
    }
}

impl<'a> Cur<'a> {
    /// Whether a length-prefixed string can be read.
    pub fn string_remains(&self) -> (r: bool)
        ensures
            r == crate::wire::has_string(self.buf@, self.pos as int),
    {
        if !self.remains(4) {
            return false;
        }
        let mut ahead = Cur { buf: self.buf, pos: self.pos };
        let n = ahead.take_u32();
        n as u64 <= (self.buf.len() - ahead.pos) as u64
    }

    /// Whether file attributes can be read.
    pub fn attrs_remain(&self) -> (r: bool)
        ensures
            r == crate::wire::has_attrs(self.buf@, self.pos as int),
    {
        if !self.remains(4) {
            return false;
        }
        let mut ahead = Cur { buf: self.buf, pos: self.pos };
        let flags = ahead.take_u32();
        let mut need: usize = 0;
        if flags & ATTR_SIZE != 0 {
            need = need + 8;
        }
        if flags & ATTR_UIDGID != 0 {
            need = need + 8;
        }
        if flags & ATTR_PERMISSIONS != 0 {
            need = need + 4;
        }
        if flags & ATTR_ACMODTIME != 0 {
            need = need + 8;
        }
        ahead.remains(need)
    }

    /// Reads a length-prefixed string as text, where there is one.
    fn text(&mut self) -> (r: Option<String>)
        ensures
            final(self).buf == old(self).buf,
            crate::wire::has_string(old(self).buf@, old(self).pos as int) ==> {
                &&& r matches Some(t)
                &&& t@ == text_at(old(self).buf@, old(self).pos as int)
                &&& final(self).pos == crate::wire::string_end(old(self).buf@, old(self).pos as int)
            },
            !crate::wire::has_string(old(self).buf@, old(self).pos as int) ==> r is None,
    {
        if !self.string_remains() {
            return None;
        }
        let bytes = self.take_string();
        Some(from_utf8_lossy(bytes))
    }
}

/// What decoding gave, by contents.
pub open spec fn request_view(r: Option<Request>) -> Option<RequestView> {
    match r {
        Some(q) => Some(q@),
        None => None,
    }
}

/// Decodes the payload of a request. The result is `None` where the payload
/// ends too early.
pub fn decode_request(typ: u8, payload: &[u8]) -> (r: Option<Request>)
    ensures
        request_view(r) == decoded(typ, payload@),
{
    let mut c = Cur::new(payload);
    if typ == SSH_FXP_FSETSTAT {
        return Some(Request::Fsetstat);
    }
    let known = typ == SSH_FXP_REALPATH || typ == SSH_FXP_STAT || typ == SSH_FXP_LSTAT || typ
        == SSH_FXP_OPENDIR || typ == SSH_FXP_READDIR || typ == SSH_FXP_OPEN || typ == SSH_FXP_READ
        || typ == SSH_FXP_WRITE || typ == SSH_FXP_CLOSE || typ == SSH_FXP_MKDIR || typ
        == SSH_FXP_RMDIR || typ == SSH_FXP_REMOVE || typ == SSH_FXP_RENAME || typ
        == SSH_FXP_SETSTAT || typ == SSH_FXP_FSTAT || typ == SSH_FXP_READLINK || typ
        == SSH_FXP_SYMLINK;
    if !known {
        return Some(Request::Unsupported);
    }
    let first = match c.text() {
        Some(t) => t,
        None => return None,
    };
    if typ == SSH_FXP_REALPATH {
        Some(Request::Realpath { path: first })
    } else if typ == SSH_FXP_STAT {
        Some(Request::Stat { path: first, follow_links: true })
    } else if typ == SSH_FXP_LSTAT {
        Some(Request::Stat { path: first, follow_links: false })
    } else if typ == SSH_FXP_OPENDIR {
        Some(Request::Opendir { path: first })
    } else if typ == SSH_FXP_READDIR {
        Some(Request::Readdir { handle: first })
    } else if typ == SSH_FXP_OPEN {
        if !c.remains(4) {
            return None;
        }
        let bits = c.take_u32();
        if !c.attrs_remain() {
            return None;
        }
        Some(Request::Open { path: first, flags: open_flags(bits) })
    } else if typ == SSH_FXP_READ {
        if !c.remains(12) {
            return None;
        }
        let offset = c.take_u64();
        let len = c.take_u32();
        Some(Request::Read { handle: first, offset, len })
    } else if typ == SSH_FXP_WRITE {
        if !c.remains(8) {
            return None;
        }
        let offset = c.take_u64();
        if !c.string_remains() {
            return None;
        }
        let data = slice_to_vec(c.take_string());
        Some(Request::Write { handle: first, offset, data })
    } else if typ == SSH_FXP_CLOSE {
        Some(Request::Close { handle: first })
    } else if typ == SSH_FXP_MKDIR {
        if !c.attrs_remain() {
            return None;
        }
        Some(Request::Mkdir { path: first })
    } else if typ == SSH_FXP_RMDIR {
        Some(Request::Rmdir { path: first })
    } else if typ == SSH_FXP_REMOVE {
        Some(Request::Remove { path: first })
    } else if typ == SSH_FXP_RENAME {
        match c.text() {
            Some(to) => Some(Request::Rename { from: first, to }),
            None => None,
        }
    } else if typ == SSH_FXP_SETSTAT {
        if !c.attrs_remain() {
            return None;
        }
        let attrs = c.take_attrs();
        Some(Request::Setstat { path: first, permissions: attrs.permissions })
    } else if typ == SSH_FXP_FSTAT {
        Some(Request::Fstat { handle: first })
    } else if typ == SSH_FXP_READLINK {
        Some(Request::Readlink { path: first })
    } else {
        match c.text() {
            Some(link) => Some(Request::Symlink { target: first, link }),
            None => None,
        }
    }
}

/// What the server does with a packet.
pub enum Incoming {
    /// The packet is empty or too short for a request: it is dropped.
    Skip,
    /// The packet opens the protocol: the given bytes are the answer.
    Hello(Vec<u8>),
    /// The packet is a request.
    Request { typ: u8, req_id: u32, payload: Vec<u8> },
}

/// The contents of an `Incoming`.
pub enum IncomingView {
    Skip,
    Hello(Seq<u8>),
    Request { typ: u8, req_id: u32, payload: Seq<u8> },
}

impl View for Incoming {
    type V = IncomingView;

    open spec fn view(&self) -> IncomingView {
        match *self {
            Incoming::Skip => IncomingView::Skip,
            Incoming::Hello(v) => IncomingView::Hello(v@),
            Incoming::Request { typ, req_id, payload } => IncomingView::Request {
                typ,
                req_id,
                payload: payload@,
            },
        }
    }
}

/// What a packet is, given without its length prefix.
pub open spec fn incoming(pkt: Seq<u8>) -> IncomingView {
    if pkt.len() == 0 {
        IncomingView::Skip
    } else if pkt[0] == SSH_FXP_INIT {
        IncomingView::Hello(version_reply())
    } else if pkt.len() < 5 {
        IncomingView::Skip
    } else {
        IncomingView::Request {
            typ: pkt[0],
            req_id: crate::wire::number_at(pkt, 1, 4) as u32,
            payload: pkt.skip(5),
        }
    }
}

/// The answer to the packet that opens the protocol.
pub open spec fn version_reply() -> Seq<u8> {
    crate::wire::be(5, 4) + seq![SSH_FXP_VERSION] + crate::wire::be(SFTP_VERSION as nat, 4)
}

/// The number of bytes of the packet that a length prefix announces.
pub fn packet_len(prefix: &[u8]) -> (n: u32)
    requires
        prefix@.len() == 4,
    ensures
        n == crate::wire::be_value(prefix@),
{
    let mut c = Cur::new(prefix);
    assert(prefix@.subrange(0, 4) =~= prefix@);
    c.take_u32()
}

/// Classifies a packet, given without its length prefix.
pub fn classify(pkt: &[u8]) -> (r: Incoming)
    ensures
        r@ == incoming(pkt@),
        pkt@.len() == 0 ==> r is Skip,
        pkt@.len() > 0 && pkt@[0] == SSH_FXP_INIT ==> (r matches Incoming::Hello(v) && v@
            == version_reply()),
        0 < pkt@.len() < 5 && pkt@[0] != SSH_FXP_INIT ==> r is Skip,
        pkt@.len() >= 5 && pkt@[0] != SSH_FXP_INIT ==> (r matches Incoming::Request {
            typ,
            req_id,
            payload,
        } && typ == pkt@[0] && req_id == crate::wire::number_at(pkt@, 1, 4) && payload@ == pkt@.skip(
            5,
        )),
{
    if pkt.len() < 1 {
        return Incoming::Skip;
    }
    let mut c = Cur::new(pkt);
    let typ = c.take_u8();
    if typ == SSH_FXP_INIT {
        let mut v = Pkt::new();
        v.u32(5);
        v.u8(SSH_FXP_VERSION);
        v.u32(SFTP_VERSION);
        assert(v.buf@ =~= version_reply());
        return Incoming::Hello(v.buf);
    }
    if pkt.len() < 5 {
        return Incoming::Skip;
    }
    let req_id = c.take_u32();
    let payload = slice_to_vec(slice_subrange(pkt, 5, pkt.len()));
    assert(payload@ =~= pkt@.skip(5));
    Incoming::Request { typ, req_id, payload }
}

/// A write request gives back the handle, the offset and the data that the
/// client put into it.
pub proof fn write_request_round_trip(handle: Seq<u8>, offset: u64, data: Seq<u8>)
    requires
        handle.len() < 0x1_0000_0000,
        data.len() < 0x1_0000_0000,
    ensures
        decoded(
            SSH_FXP_WRITE,
            crate::wire::wire_string(handle) + crate::wire::be(offset as nat, 8)
                + crate::wire::wire_string(data),
        ) == Some(
            RequestView::Write { handle: crate::text::lossy_text(handle), offset, data },
        ),
{
    let h = crate::wire::wire_string(handle);
    let o = crate::wire::be(offset as nat, 8);
    let d = crate::wire::wire_string(data);
    let e = Seq::<u8>::empty();
    let s = h + o + d;
    crate::wire::be_limits();
    crate::wire::be_round_trip(handle.len(), 4);
    crate::wire::be_round_trip(offset as nat, 8);
    crate::wire::string_round_trip(e, handle, o + d);
    assert(e + h + (o + d) =~= s);
    crate::wire::number_round_trip(h, offset as nat, 8, d);
    crate::wire::string_round_trip(h + o, data, e);
    assert(h + o + d + e =~= s);
}

/// A read request gives back the handle, the offset and the length that the
/// client put into it.
pub proof fn read_request_round_trip(handle: Seq<u8>, offset: u64, len: u32)
    requires
        handle.len() < 0x1_0000_0000,
    ensures
        decoded(
            SSH_FXP_READ,
            crate::wire::wire_string(handle) + crate::wire::be(offset as nat, 8)
                + crate::wire::be(len as nat, 4),
        ) == Some(
            RequestView::Read { handle: crate::text::lossy_text(handle), offset, len },
        ),
{
    let h = crate::wire::wire_string(handle);
    let o = crate::wire::be(offset as nat, 8);
    let n = crate::wire::be(len as nat, 4);
    let e = Seq::<u8>::empty();
    let s = h + o + n;
    crate::wire::be_limits();
    crate::wire::be_round_trip(handle.len(), 4);
    crate::wire::be_round_trip(offset as nat, 8);
    crate::wire::be_round_trip(len as nat, 4);
    crate::wire::string_round_trip(e, handle, o + n);
    assert(e + h + (o + n) =~= s);
    crate::wire::number_round_trip(h, offset as nat, 8, n);
    crate::wire::number_round_trip(h + o, len as nat, 4, e);
    assert(h + o + n + e =~= s);
}

/// A request on one path or handle gives back the path or handle that the client
/// put into it, whatever follows: realpath, stat, which follows links, lstat,
/// which does not, opendir, readdir, close, rmdir, remove, fstat and readlink, by
/// the numbers that the protocol gives them.
pub proof fn path_request_round_trip(text: Seq<u8>, rest: Seq<u8>)
    requires
        text.len() < 0x1_0000_0000,
    ensures
        ({
            let s = crate::wire::wire_string(text) + rest;
            let path = crate::text::lossy_text(text);
            &&& decoded(16, s) == Some(RequestView::Realpath { path })
            &&& decoded(17, s) == Some(RequestView::Stat { path, follow_links: true })
            &&& decoded(7, s) == Some(RequestView::Stat { path, follow_links: false })
            &&& decoded(11, s) == Some(RequestView::Opendir { path })
            &&& decoded(12, s) == Some(RequestView::Readdir { handle: path })
            &&& decoded(4, s) == Some(RequestView::Close { handle: path })
            &&& decoded(15, s) == Some(RequestView::Rmdir { path })
            &&& decoded(13, s) == Some(RequestView::Remove { path })
            &&& decoded(8, s) == Some(RequestView::Fstat { handle: path })
            &&& decoded(19, s) == Some(RequestView::Readlink { path })
        }),
{
    crate::wire::string_round_trip(Seq::empty(), text, rest);
    assert(Seq::<u8>::empty() + crate::wire::wire_string(text) + rest
        =~= crate::wire::wire_string(text) + rest);
}

/// A request on two paths gives back both in their order: rename, from the first
/// to the second, and symlink, to the first as target with the second as link.
pub proof fn two_path_request_round_trip(first: Seq<u8>, second: Seq<u8>, rest: Seq<u8>)
    requires
        first.len() < 0x1_0000_0000,
        second.len() < 0x1_0000_0000,
    ensures
        ({
            let s = crate::wire::wire_string(first) + crate::wire::wire_string(second) + rest;
            let a = crate::text::lossy_text(first);
            let b = crate::text::lossy_text(second);
            &&& decoded(18, s) == Some(RequestView::Rename { from: a, to: b })
            &&& decoded(20, s) == Some(RequestView::Symlink { target: a, link: b })
        }),
{
    let e = Seq::<u8>::empty();
    let a = crate::wire::wire_string(first);
    let b = crate::wire::wire_string(second);
    crate::wire::be_round_trip(first.len(), 4);
    crate::wire::string_round_trip(e, first, b + rest);
    assert(e + a + (b + rest) =~= a + b + rest);
    crate::wire::string_round_trip(a, second, rest);
}

/// A request with attributes gives back its path, and a setstat request the
/// permissions that the attributes hold: mkdir, setstat, and open, which gives
/// back its flags too.
pub proof fn attrs_request_round_trip(text: Seq<u8>, flags: u32, attrs: Seq<u8>)
    requires
        text.len() < 0x1_0000_0000,
        crate::wire::has_attrs(attrs, 0),
    ensures
        ({
            let p = crate::wire::wire_string(text);
            let path = crate::text::lossy_text(text);
            let permissions = crate::wire::attrs_at(attrs, 0).permissions;
            &&& decoded(14, p + attrs) == Some(RequestView::Mkdir { path })
            &&& decoded(9, p + attrs) == Some(RequestView::Setstat { path, permissions })
            &&& decoded(3, p + crate::wire::be(flags as nat, 4) + attrs) == Some(
                RequestView::Open { path, flags: open_flags_of(flags) },
            )
        }),
{
    let e = Seq::<u8>::empty();
    let p = crate::wire::wire_string(text);
    let f = crate::wire::be(flags as nat, 4);
    crate::wire::be_limits();
    crate::wire::be_round_trip(text.len(), 4);
    crate::wire::be_round_trip(flags as nat, 4);
    crate::wire::string_round_trip(e, text, attrs);
    assert(e + p + attrs =~= p + attrs);
    crate::wire::attrs_stand_anywhere(p, attrs);
    crate::wire::string_round_trip(e, text, f + attrs);
    assert(e + p + (f + attrs) =~= p + f + attrs);
    crate::wire::number_round_trip(p, flags as nat, 4, attrs);
    crate::wire::attrs_stand_anywhere(p + f, attrs);
}

/// Each flag of an open request is one binary digit of its number: read, write,
/// append, create, truncate and create anew, from the lowest on.
pub proof fn open_flags_are_the_binary_digits(bits: u32)
    ensures
        open_flags_of(bits).read == (bits % 2 == 1),
        open_flags_of(bits).write == ((bits / 2) % 2 == 1),
        open_flags_of(bits).append == ((bits / 4) % 2 == 1),
        open_flags_of(bits).create == ((bits / 8) % 2 == 1),
        open_flags_of(bits).truncate == ((bits / 16) % 2 == 1),
        open_flags_of(bits).create_new == ((bits / 32) % 2 == 1),
{
    assert((bits & 0x1 != 0) == (bits % 2 == 1)) by (bit_vector);
    assert((bits & 0x2 != 0) == ((bits / 2) % 2 == 1)) by (bit_vector);
    assert((bits & 0x4 != 0) == ((bits / 4) % 2 == 1)) by (bit_vector);
    assert((bits & 0x8 != 0) == ((bits / 8) % 2 == 1)) by (bit_vector);
    assert((bits & 0x10 != 0) == ((bits / 16) % 2 == 1)) by (bit_vector);
    assert((bits & 0x20 != 0) == ((bits / 32) % 2 == 1)) by (bit_vector);
}

/// A request whose number the protocol does not give to a client's request is
/// unsupported, whatever it holds, and fsetstat is taken without its fields. Of
/// the others each needs its path or handle.
pub proof fn request_numbers(typ: u8, payload: Seq<u8>)
    ensures
        typ < 3 || typ > 20 ==> decoded(typ, payload) == Some(RequestView::Unsupported),
        typ == 10 ==> decoded(typ, payload) == Some(RequestView::Fsetstat),
        3 <= typ <= 20 && typ != 10 ==> (decoded(typ, payload) is Some ==> crate::wire::has_string(
            payload,
            0,
        )),
        3 <= typ <= 20 ==> decoded(typ, payload) != Some(RequestView::Unsupported),
{
}

/// A packet that a client frames arrives as the request that it is, with its
/// type, number and payload; the packet that opens the protocol is answered by
/// version 3, whatever it holds.
pub proof fn framed_request_arrives(typ: u8, req_id: u32, payload: Seq<u8>, hello: Seq<u8>)
    ensures
        typ != 1 ==> incoming(crate::wire::packet(typ, req_id, payload).skip(4))
            == (IncomingView::Request { typ, req_id, payload }),
        incoming(seq![1u8] + hello) == IncomingView::Hello(
            seq![0u8, 0u8, 0u8, 5u8, 2u8, 0u8, 0u8, 0u8, 3u8],
        ),
{
    let p = crate::wire::packet(typ, req_id, payload);
    let q = p.skip(4);
    crate::wire::packet_round_trip(typ, req_id, payload);
    assert(q[0] == p[4]);
    assert(q.subrange(1, 5) =~= p.subrange(5, 9));
    assert(q.skip(5) =~= p.skip(9));
    reveal_with_fuel(crate::wire::be, 5);
    assert(version_reply() =~= seq![0u8, 0u8, 0u8, 5u8, 2u8, 0u8, 0u8, 0u8, 3u8]);
}

/// A packet too short to hold a number, and no packet at all, are passed over,
/// unless it opens the protocol.
pub proof fn short_packets_are_passed_over(pkt: Seq<u8>)
    requires
        pkt.len() < 5,
        pkt.len() > 0 ==> pkt[0] != 1,
    ensures
        incoming(pkt) is Skip,
{
}

} // verus!
