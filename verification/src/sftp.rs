//! SFTP server state: open handles, the answer to each request, and the
//! replies to what the file system reports.
use vstd::prelude::*;
use vstd::string::*;
use vstd::utf8::encode_utf8;
use crate::sftp_attrs::{attrs_bytes, name_payload_bytes, FileMeta, NameEntry, NameView};
use crate::sftp_path::{strip_verbatim, to_sftp_path};
use crate::sftp_request::{Request, RequestView};
use crate::text::{cat, decimal_text};
use crate::wire::{
    wire, Pkt, SSH_FXP_ATTRS, SSH_FXP_DATA, SSH_FXP_HANDLE, SSH_FXP_NAME, SSH_FXP_STATUS,
};

verus! {

// status codes
pub const FX_OK: u32 = 0;
pub const FX_EOF: u32 = 1;
pub const FX_NO_SUCH_FILE: u32 = 2;
pub const FX_PERMISSION_DENIED: u32 = 3;
pub const FX_FAILURE: u32 = 4;
pub const FX_OP_UNSUPPORTED: u32 = 8;

/// The largest number of names in one reply to a directory read.
pub const MAX_NAMES: usize = 100;

/// Why the file system refused an operation.
#[derive(Clone, Copy, PartialEq, Eq, Structural)]
pub enum IoErrorKind {
    NotFound,
    PermissionDenied,
    Other,
}

/// An error of the file system.
pub struct IoError {
    pub kind: IoErrorKind,
    pub message: String,
}

/// The status code of a kind of error.
pub open spec fn status_code(kind: IoErrorKind) -> u32 {
    match kind {
        IoErrorKind::NotFound => FX_NO_SUCH_FILE,
        IoErrorKind::PermissionDenied => FX_PERMISSION_DENIED,
        IoErrorKind::Other => FX_FAILURE,
    }
}

/// The status code that tells a client of an error.
pub fn code_for(e: &IoError) -> (r: u32)
    ensures
        r == status_code(e.kind),
{
    match e.kind {
        IoErrorKind::NotFound => FX_NO_SUCH_FILE,
        IoErrorKind::PermissionDenied => FX_PERMISSION_DENIED,
        IoErrorKind::Other => FX_FAILURE,
    }
}

/// What an open handle stands for.
#[derive(Clone, Copy, PartialEq, Eq, Structural)]
pub enum SftpHandle {
    File,
    /// A directory of `len` entries, of which the first `idx` have been read.
    Dir { len: usize, idx: usize },
}

/// An open handle under its name.
struct HandleEntry {
    name: String,
    state: SftpHandle,
}

/// The name of the handle with number `id`.
pub open spec fn handle_name(id: nat) -> Seq<char> {
    "h"@ + crate::text::decimal(id)
}

/// The entry with the given name stands at `i`.
spec fn entry_at(entries: Seq<HandleEntry>, name: Seq<char>, i: int) -> bool {
    0 <= i < entries.len() && entries[i].name@ == name
}

/// The open handles by name.
spec fn handle_map(entries: Seq<HandleEntry>) -> Map<Seq<char>, SftpHandle> {
    Map::new(
        |name: Seq<char>| exists|i: int| entry_at(entries, name, i),
        |name: Seq<char>| entries[choose|i: int| entry_at(entries, name, i)].state,
    )
}

/// The state of an SFTP server: its open handles and the number of the next.
pub struct Sftp {
    handles: Vec<HandleEntry>,
    next: u32,
}

/// The contents of an `Sftp`.
pub struct SftpView {
    pub handles: Map<Seq<char>, SftpHandle>,
    pub next: u32,
}

impl View for Sftp {
    type V = SftpView;

    closed spec fn view(&self) -> SftpView {
        SftpView { handles: handle_map(self.handles@), next: self.next }
    }
}

/// A status reply.
pub open spec fn status_reply(req_id: u32, code: u32, msg: Seq<char>) -> Seq<u8> {
    crate::wire::packet(
        SSH_FXP_STATUS,
        req_id,
        crate::wire::be(code as nat, 4) + crate::wire::wire_string(encode_utf8(msg))
            + crate::wire::wire_string(encode_utf8("en-US"@)),
    )
}

/// A handle reply.
pub open spec fn handle_reply(req_id: u32, name: Seq<char>) -> Seq<u8> {
    crate::wire::packet(
        SSH_FXP_HANDLE,
        req_id,
        crate::wire::wire_string(encode_utf8(name)),
    )
}

/// A data reply.
pub open spec fn data_reply(req_id: u32, data: Seq<u8>) -> Seq<u8> {
    crate::wire::packet(SSH_FXP_DATA, req_id, crate::wire::wire_string(data))
}

/// An attributes reply.
pub open spec fn attrs_reply(req_id: u32, meta: FileMeta) -> Seq<u8> {
    crate::wire::packet(SSH_FXP_ATTRS, req_id, crate::sftp_attrs::attrs_wire(meta))
}

/// A name reply.
pub open spec fn name_reply(req_id: u32, names: Seq<NameView>) -> Seq<u8> {
    crate::wire::packet(SSH_FXP_NAME, req_id, crate::sftp_attrs::name_payload(names))
}

/// Builds a status reply.
pub fn status(req_id: u32, code: u32, msg: &str) -> (r: Vec<u8>)
    ensures
        r@ == status_reply(req_id, code, msg@),
{
    let mut p = Pkt::new();
    p.u32(code);
    p.string(msg.as_bytes());
    p.string("en-US".as_bytes());
    assert(p.buf@ =~= crate::wire::be(code as nat, 4) + crate::wire::wire_string(encode_utf8(msg@))
        + crate::wire::wire_string(encode_utf8("en-US"@)));
    wire(SSH_FXP_STATUS, req_id, p.buf.as_slice())
}

/// Builds an attributes reply.
pub fn attrs_packet(req_id: u32, meta: &FileMeta) -> (r: Vec<u8>)
    ensures
        r@ == attrs_reply(req_id, *meta),
{
    let b = attrs_bytes(meta);
    wire(SSH_FXP_ATTRS, req_id, b.as_slice())
}

/// Builds a name reply.
pub fn name_packet(req_id: u32, names: &Vec<NameEntry>) -> (r: Vec<u8>)
    ensures
        r@ == name_reply(req_id, crate::sftp_attrs::name_views(names@)),
{
    let b = name_payload_bytes(names);
    wire(SSH_FXP_NAME, req_id, b.as_slice())
}

fn string_packet(typ: u8, req_id: u32, s: &[u8]) -> (r: Vec<u8>)
    ensures
        r@ == crate::wire::packet(typ, req_id, crate::wire::wire_string(s@)),
{
    let mut p = Pkt::new();
    p.string(s);
    assert(p.buf@ =~= crate::wire::wire_string(s@));
    wire(typ, req_id, p.buf.as_slice())
}

/// A directory read in progress: the names found so far.
pub struct DirBatch {
    pub handle: String,
    pub names: Vec<NameEntry>,
}

/// What the server does about a request.
pub enum SftpStep {
    /// Send this reply.
    Reply(Vec<u8>),
    /// Carry out the request and report what came of it.
    Perform(Request),
    /// Look at the entries of a directory one by one.
    List(DirBatch),
}

/// The contents of an `SftpStep`.
pub enum StepView {
    Reply(Seq<u8>),
    Perform(RequestView),
    List { handle: Seq<char> },
}

/// `step` is what `view` describes.
pub open spec fn step_is(step: SftpStep, view: StepView) -> bool {
    match view {
        StepView::Reply(bytes) => step matches SftpStep::Reply(r) && r@ == bytes,
        StepView::Perform(request) => step matches SftpStep::Perform(r) && r@ == request,
        StepView::List { handle } => step matches SftpStep::List(b) && b.handle@ == handle
            && b.names@.len() == 0,
    }
}

/// What the file system reports of a request that was carried out.
pub enum SftpEvent {
    /// A request that only changes the file system: mkdir, rmdir, remove,
    /// rename, symlink.
    Done(Result<(), IoError>),
    /// The native path that realpath or readlink found, and what is known of
    /// the file that it is reported for.
    PathFound(Result<(String, Option<FileMeta>), IoError>),
    /// The metadata of a path.
    Stat(Result<FileMeta, IoError>),
    /// The metadata of an open file.
    FileStat(Result<FileMeta, IoError>),
    /// A file or directory was opened.
    Opened(Result<SftpHandle, IoError>),
    /// Data read from a file; no data at its end.
    Data(Result<Vec<u8>, IoError>),
    /// Data was written to a file.
    Written(Result<(), IoError>),
    /// Permissions were set, or could not be set.
    PermissionsSet,
}

/// The file behind a handle.
pub open spec fn is_file(s: SftpView, handle: Seq<char>) -> bool {
    s.handles.contains_key(handle) && s.handles[handle] is File
}

/// The directory behind a handle.
pub open spec fn is_directory(s: SftpView, handle: Seq<char>) -> bool {
    s.handles.contains_key(handle) && s.handles[handle] is Dir
}

/// The answer to a request on a handle that does not stand for what the
/// request needs.
pub open spec fn invalid_handle(req_id: u32) -> StepView {
    StepView::Reply(status_reply(req_id, FX_FAILURE, "invalid handle"@))
}

/// What the server does about a request.
pub open spec fn step_for(s: SftpView, req_id: u32, q: RequestView) -> StepView {
    match q {
        RequestView::Readdir { handle } => if is_directory(s, handle) {
            StepView::List { handle }
        } else {
            invalid_handle(req_id)
        },
        RequestView::Read { handle, .. } => if is_file(s, handle) {
            StepView::Perform(q)
        } else {
            invalid_handle(req_id)
        },
        RequestView::Write { handle, .. } => if is_file(s, handle) {
            StepView::Perform(q)
        } else {
            invalid_handle(req_id)
        },
        RequestView::Fstat { handle } => if is_file(s, handle) {
            StepView::Perform(q)
        } else {
            invalid_handle(req_id)
        },
        RequestView::Close { .. } => StepView::Reply(status_reply(req_id, FX_OK, "OK"@)),
        RequestView::Fsetstat => StepView::Reply(status_reply(req_id, FX_OK, "OK"@)),
        RequestView::Setstat { permissions, .. } => if permissions is Some {
            StepView::Perform(q)
        } else {
            StepView::Reply(status_reply(req_id, FX_OK, "OK"@))
        },
        RequestView::Unsupported => StepView::Reply(
            status_reply(req_id, FX_OP_UNSUPPORTED, "operation unsupported"@),
        ),
        _ => StepView::Perform(q),
    }
}

/// The state after a request has been looked at: a close request removes its
/// handle.
pub open spec fn state_after(s: SftpView, q: RequestView) -> SftpView {
    match q {
        RequestView::Close { handle } => SftpView { handles: s.handles.remove(handle), ..s },
        _ => s,
    }
}

/// The reply to a request that only changes the file system.
pub open spec fn done_reply(req_id: u32, r: Result<(), IoError>) -> Seq<u8> {
    match r {
        Ok(_) => status_reply(req_id, FX_OK, "OK"@),
        Err(e) => status_reply(req_id, status_code(e.kind), e.message@),
    }
}

/// The reply to what the file system reports, where the next handle has
/// number `next`.
pub open spec fn event_reply(next: u32, req_id: u32, event: SftpEvent) -> Seq<u8> {
    match event {
        SftpEvent::Done(r) => done_reply(req_id, r),
        SftpEvent::PathFound(Ok(found)) => name_reply(
            req_id,
            seq![
                NameView {
                    filename: crate::sftp_path::sftp_form(
                        crate::sftp_path::stripped(found.0@),
                    ),
                    meta: found.1,
                },
            ],
        ),
        SftpEvent::PathFound(Err(e)) => status_reply(req_id, status_code(e.kind), e.message@),
        SftpEvent::Stat(Ok(meta)) => attrs_reply(req_id, meta),
        SftpEvent::Stat(Err(e)) => status_reply(req_id, status_code(e.kind), e.message@),
        SftpEvent::FileStat(Ok(meta)) => attrs_reply(req_id, meta),
        SftpEvent::FileStat(Err(e)) => status_reply(req_id, FX_FAILURE, e.message@),
        SftpEvent::Opened(Ok(_)) => handle_reply(req_id, handle_name(next as nat)),
        SftpEvent::Opened(Err(e)) => status_reply(req_id, status_code(e.kind), e.message@),
        SftpEvent::Data(Ok(data)) => if data@.len() == 0 {
            status_reply(req_id, FX_EOF, "EOF"@)
        } else {
            data_reply(req_id, data@)
        },
        SftpEvent::Data(Err(e)) => status_reply(req_id, FX_FAILURE, e.message@),
        SftpEvent::Written(Ok(_)) => status_reply(req_id, FX_OK, "OK"@),
        SftpEvent::Written(Err(e)) => status_reply(req_id, FX_FAILURE, e.message@),
        SftpEvent::PermissionsSet => status_reply(req_id, FX_OK, "OK"@),
    }
}

/// The state after the file system's report: what was opened has a handle.
pub open spec fn state_after_event(s: SftpView, event: SftpEvent) -> SftpView {
    match event {
        SftpEvent::Opened(Ok(h)) => SftpView {
            handles: s.handles.insert(handle_name(s.next as nat), h),
            next: (s.next + 1) as u32,
        },
        _ => s,
    }
}

/// One step of a directory read with `count` names so far: the entry to look
/// at, if there is one, and the directory after it.
pub open spec fn dir_next(h: SftpHandle, count: nat) -> (Option<usize>, SftpHandle) {
    match h {
        SftpHandle::Dir { len, idx } => if idx < len && count < MAX_NAMES {
            (Some(idx), SftpHandle::Dir { len, idx: (idx + 1) as usize })
        } else {
            (None, h)
        },
        SftpHandle::File => (None, h),
    }
}

/// The state after one step of a directory read with `count` names so far.
pub open spec fn state_after_entry(s: SftpView, handle: Seq<char>, count: nat) -> SftpView {
    if s.handles.contains_key(handle) {
        SftpView { handles: s.handles.insert(handle, dir_next(s.handles[handle], count).1), ..s }
    } else {
        s
    }
}

/// The state after a directory read that found `count` names: at the end of the
/// directory the handle is closed.
pub open spec fn state_after_batch(s: SftpView, handle: Seq<char>, count: nat) -> SftpView {
    if count == 0 {
        SftpView { handles: s.handles.remove(handle), ..s }
    } else {
        s
    }
}

/// The reply to a directory read.
pub open spec fn batch_reply(req_id: u32, names: Seq<NameView>) -> Seq<u8> {
    if names.len() == 0 {
        status_reply(req_id, FX_EOF, "end of directory"@)
    } else {
        name_reply(req_id, names)
    }
}

/// The name has been given out.
pub open spec fn issued(s: SftpView, name: Seq<char>) -> bool {
    exists|id: nat| 1 <= id < s.next && name == #[trigger] handle_name(id)
}

impl SftpView {
    /// Every open handle has a name that has been given out.
    pub open spec fn wf(self) -> bool {
        &&& self.next >= 1
        &&& forall|name: Seq<char>| #[trigger]
            self.handles.contains_key(name) ==> issued(self, name)
    }
}

impl Sftp {
    /// Handles have different names, each of them the name of a number that
    /// has been given out.
    pub closed spec fn wf(&self) -> bool {
        &&& self.next >= 1
        &&& forall|i: int, j: int|
            0 <= i < j < self.handles@.len() ==> (#[trigger] self.handles@[i]).name@ != (
            #[trigger] self.handles@[j]).name@
        &&& forall|i: int|
            0 <= i < self.handles@.len() ==> exists|id: nat|
                1 <= id < self.next && (#[trigger] self.handles@[i]).name@ == #[trigger] handle_name(
                    id,
                )
    }

    /// A server without open handles.
    pub fn new() -> (r: Self)
        ensures
            r.wf(),
            r@.handles == Map::<Seq<char>, SftpHandle>::empty(),
            r@.next == 1,
    {
        let r = Sftp { handles: Vec::new(), next: 1 };
        assert(r@.handles =~= Map::<Seq<char>, SftpHandle>::empty());
        r
    }

    proof fn map_lookup(&self, i: int)
        requires
            self.wf(),
            0 <= i < self.handles@.len(),
        ensures
            self@.handles.contains_key(self.handles@[i].name@),
            self@.handles[self.handles@[i].name@] == self.handles@[i].state,
    {
        let name = self.handles@[i].name@;
        assert(entry_at(self.handles@, name, i));
        let k = choose|k: int| entry_at(self.handles@, name, k);
        assert(entry_at(self.handles@, name, k));
        if k < i {
            assert(self.handles@[k].name@ != self.handles@[i].name@);
        } else if i < k {
            assert(self.handles@[i].name@ != self.handles@[k].name@);
        }
    }

    /// Where the handle stands in the table.
    fn position(&self, handle: &str) -> (r: Option<usize>)
        requires
            self.wf(),
        ensures
            r matches Some(i) ==> i < self.handles@.len() && self.handles@[i as int].name@
                == handle@ && self@.handles.contains_key(handle@) && self@.handles[handle@]
                == self.handles@[i as int].state,
            r is None ==> !self@.handles.contains_key(handle@),
    {
        let mut i: usize = 0;
        while i < self.handles.len()
            invariant
                self.wf(),
                i <= self.handles@.len(),
                forall|j: int| 0 <= j < i ==> (#[trigger] self.handles@[j]).name@ != handle@,
            decreases self.handles@.len() - i,
        {
            if crate::text::str_eq(self.handles[i].name.as_str(), handle) {
                proof {
                    self.map_lookup(i as int);
                }
                return Some(i);
            }
            i = i + 1;
        }
        None
    }

    /// What the handle stands for, where it is open.
    pub fn lookup(&self, handle: &str) -> (r: Option<SftpHandle>)
        requires
            self.wf(),
        ensures
            r == (if self@.handles.contains_key(handle@) {
                Some(self@.handles[handle@])
            } else {
                None
            }),
    {
        match self.position(handle) {
            Some(i) => Some(self.handles[i].state),
            None => None,
        }
    }

    /// Whether the number of the next handle can be given out.
    pub fn has_free_handle(&self) -> (r: bool)
        ensures
            r == (self@.next < u32::MAX),
    {
        self.next < u32::MAX
    }

    /// The name that the next handle gets.
    pub fn next_handle(&self) -> (name: String)
        ensures
            name@ == handle_name(self@.next as nat),
    {
        let digits = decimal_text(self.next as u64);
        cat("h", digits.as_str())
    }

    /// Gives out a new handle.
    pub fn gen_handle(&mut self, h: SftpHandle) -> (name: String)
        requires
            old(self).wf(),
            old(self)@.next < u32::MAX,
        ensures
            final(self).wf(),
            name@ == handle_name(old(self)@.next as nat),
            !old(self)@.handles.contains_key(name@),
            final(self)@.handles == old(self)@.handles.insert(name@, h),
            final(self)@.next == old(self)@.next + 1,
    {
        let id = self.next;
        let name = self.next_handle();
        let ghost before = *self;
        proof {
            assert forall|i: int| 0 <= i < self.handles@.len() implies (
            #[trigger] self.handles@[i]).name@ != name@ by {
                let k = choose|k: nat|
                    1 <= k < self.next && self.handles@[i].name@ == #[trigger] handle_name(k);
                if handle_name(k) == handle_name(id as nat) {
                    handle_name_is_injective(k, id as nat);
                }
            }
        }
        self.handles.push(HandleEntry { name: name.clone(), state: h });
        self.next = id + 1;
        proof {
            let old_entries = before.handles@;
            let entries = self.handles@;
            let n = old_entries.len() as int;
            assert(forall|i: int| 0 <= i < n ==> entries[i] == old_entries[i]);
            assert(entries[n].name@ == name@);
            assert forall|i: int| 0 <= i < entries.len() implies exists|k: nat|
                1 <= k < self.next && (#[trigger] entries[i]).name@ == #[trigger] handle_name(k) by {
                if i < n {
                    let k = choose|k: nat|
                        1 <= k < before.next && old_entries[i].name@ == #[trigger] handle_name(k);
                    assert(entries[i].name@ == handle_name(k));
                } else {
                    assert(entries[i].name@ == handle_name(id as nat));
                }
            }
            assert(self.wf());
            let target = before@.handles.insert(name@, h);
            assert forall|key: Seq<char>| self@.handles.contains_key(key)
                == target.contains_key(key) by {
                if self@.handles.contains_key(key) {
                    let i = choose|i: int| entry_at(entries, key, i);
                    if i < n {
                        assert(entry_at(old_entries, key, i));
                    }
                }
                if before@.handles.contains_key(key) {
                    let i = choose|i: int| entry_at(old_entries, key, i);
                    assert(entry_at(entries, key, i));
                }
                if key == name@ {
                    assert(entry_at(entries, key, n));
                }
            }
            assert forall|key: Seq<char>| self@.handles.contains_key(key) implies self@.handles[key]
                == target[key] by {
                let i = choose|i: int| entry_at(entries, key, i);
                self.map_lookup(i);
                if i < n {
                    before.map_lookup(i);
                }
            }
            assert(self@.handles =~= target);
        }
        name
    }

    /// Forgets a handle.
    pub fn remove_handle(&mut self, handle: &str)
        requires
            old(self).wf(),
        ensures
            final(self).wf(),
            final(self)@.handles == old(self)@.handles.remove(handle@),
            final(self)@.next == old(self)@.next,
    {
        let ghost before = *self;
        match self.position(handle) {
            Some(p) => {
                self.handles.remove(p);
                proof {
                    let old_entries = before.handles@;
                    let entries = self.handles@;
                    let q = p as int;
                    assert(forall|i: int|
                        0 <= i < entries.len() ==> entries[i] == old_entries[if i < q {
                            i
                        } else {
                            i + 1
                        }]);
                    assert forall|i: int| 0 <= i < entries.len() implies exists|k: nat|
                        1 <= k < self.next && (#[trigger] entries[i]).name@
                            == #[trigger] handle_name(k) by {
                        let o = if i < q {
                            i
                        } else {
                            i + 1
                        };
                        let k = choose|k: nat|
                            1 <= k < before.next && old_entries[o].name@ == #[trigger] handle_name(
                                k,
                            );
                        assert(entries[i].name@ == handle_name(k));
                    }
                    assert(self.wf());
                    let target = before@.handles.remove(handle@);
                    assert forall|key: Seq<char>| self@.handles.contains_key(key)
                        == target.contains_key(key) by {
                        if self@.handles.contains_key(key) {
                            let i = choose|i: int| entry_at(entries, key, i);
                            let o = if i < q {
                                i
                            } else {
                                i + 1
                            };
                            assert(entry_at(old_entries, key, o));
                            assert(key != handle@) by {
                                if o < q {
                                    assert(old_entries[o].name@ != old_entries[q].name@);
                                } else {
                                    assert(old_entries[q].name@ != old_entries[o].name@);
                                }
                            }
                        }
                        if target.contains_key(key) {
                            let o = choose|o: int| entry_at(old_entries, key, o);
                            let i = if o < q {
                                o
                            } else {
                                o - 1
                            };
                            assert(entry_at(entries, key, i));
                        }
                    }
                    assert forall|key: Seq<char>|
                        self@.handles.contains_key(key) implies self@.handles[key]
                        == target[key] by {
                        let i = choose|i: int| entry_at(entries, key, i);
                        self.map_lookup(i);
                        let o = if i < q {
                            i
                        } else {
                            i + 1
                        };
                        before.map_lookup(o);
                    }
                    assert(self@.handles =~= target);
                }
            },
            None => {
                assert(self@.handles =~= before@.handles.remove(handle@));
            },
        }
    }

    /// Replaces what an open handle stands for.
    fn update_handle(&mut self, i: usize, h: SftpHandle)
        requires
            old(self).wf(),
            i < old(self).handles@.len(),
        ensures
            final(self).wf(),
            final(self)@.handles == old(self)@.handles.insert(
                old(self).handles@[i as int].name@,
                h,
            ),
            final(self)@.next == old(self)@.next,
    {
        let ghost before = *self;
        let name = self.handles[i].name.clone();
        self.handles.set(i, HandleEntry { name, state: h });
        proof {
            let old_entries = before.handles@;
            let entries = self.handles@;
            assert(forall|k: int|
                0 <= k < entries.len() ==> (#[trigger] entries[k]).name@ == old_entries[k].name@);
            assert forall|k: int| 0 <= k < entries.len() implies exists|id: nat|
                1 <= id < self.next && (#[trigger] entries[k]).name@ == #[trigger] handle_name(
                    id,
                ) by {
                let id = choose|id: nat|
                    1 <= id < before.next && old_entries[k].name@ == #[trigger] handle_name(id);
                assert(entries[k].name@ == handle_name(id));
            }
            assert(self.wf()) by {
                assert forall|a: int, b: int| 0 <= a < b < entries.len() implies (
                #[trigger] entries[a]).name@ != (#[trigger] entries[b]).name@ by {
                    assert(old_entries[a].name@ != old_entries[b].name@);
                }
            }
            let key0 = old_entries[i as int].name@;
            let target = before@.handles.insert(key0, h);
            assert forall|key: Seq<char>| self@.handles.contains_key(key)
                == target.contains_key(key) by {
                if self@.handles.contains_key(key) {
                    let k = choose|k: int| entry_at(entries, key, k);
                    assert(entry_at(old_entries, key, k));
                }
                if before@.handles.contains_key(key) {
                    let k = choose|k: int| entry_at(old_entries, key, k);
                    assert(entry_at(entries, key, k));
                }
                if key == key0 {
                    assert(entry_at(entries, key, i as int));
                }
            }
            assert forall|key: Seq<char>| self@.handles.contains_key(key) implies self@.handles[key]
                == target[key] by {
                let k = choose|k: int| entry_at(entries, key, k);
                self.map_lookup(k);
                before.map_lookup(k);
                if k != i {
                    before.map_lookup(i as int);
                    if k < i {
                        assert(old_entries[k].name@ != old_entries[i as int].name@);
                    } else {
                        assert(old_entries[i as int].name@ != old_entries[k].name@);
                    }
                }
            }
            assert(self@.handles =~= target);
        }
    }

    fn holds_file(&self, handle: &str) -> (r: bool)
        requires
            self.wf(),
        ensures
            r == is_file(self@, handle@),
    {
        match self.lookup(handle) {
            Some(SftpHandle::File) => true,
            _ => false,
        }
    }

    fn holds_directory(&self, handle: &str) -> (r: bool)
        requires
            self.wf(),
        ensures
            r == is_directory(self@, handle@),
    {
        match self.lookup(handle) {
            Some(SftpHandle::Dir { .. }) => true,
            _ => false,
        }
    }

    /// Decides what to do about a request.
    pub fn dispatch(&mut self, req_id: u32, request: Request) -> (r: SftpStep)
        requires
            old(self).wf(),
        ensures
            final(self).wf(),
            final(self)@ == state_after(old(self)@, request@),
            step_is(r, step_for(old(self)@, req_id, request@)),
    {
        let valid = match &request {
            Request::Readdir { handle } => self.holds_directory(handle.as_str()),
            Request::Read { handle, .. } => self.holds_file(handle.as_str()),
            Request::Write { handle, .. } => self.holds_file(handle.as_str()),
            Request::Fstat { handle } => self.holds_file(handle.as_str()),
            _ => true,
        };
        if !valid {
            return SftpStep::Reply(status(req_id, FX_FAILURE, "invalid handle"));
        }
        match request {
            Request::Readdir { handle } => SftpStep::List(DirBatch { handle, names: Vec::new() }),
            Request::Close { handle } => {
                self.remove_handle(handle.as_str());
                SftpStep::Reply(status(req_id, FX_OK, "OK"))
            },
            Request::Fsetstat => SftpStep::Reply(status(req_id, FX_OK, "OK")),
            Request::Setstat { path, permissions } => match permissions {
                Some(_) => SftpStep::Perform(Request::Setstat { path, permissions }),
                None => SftpStep::Reply(status(req_id, FX_OK, "OK")),
            },
            Request::Unsupported => SftpStep::Reply(
                status(req_id, FX_OP_UNSUPPORTED, "operation unsupported"),
            ),
            other => SftpStep::Perform(other),
        }
    }

    /// Handles a request packet. The result is `None` where the payload ends
    /// before the fields of the request do.
    pub fn handle(&mut self, typ: u8, req_id: u32, payload: &[u8]) -> (r: Option<SftpStep>)
        requires
            old(self).wf(),
        ensures
            final(self).wf(),
            match crate::sftp_request::decoded(typ, payload@) {
                None => r is None && final(self)@ == old(self)@,
                Some(q) => {
                    &&& r matches Some(step)
                    &&& step_is(step, step_for(old(self)@, req_id, q))
                    &&& final(self)@ == state_after(old(self)@, q)
                },
            },
    {
        match crate::sftp_request::decode_request(typ, payload) {
            Some(request) => Some(self.dispatch(req_id, request)),
            None => None,
        }
    }

    /// Turns what the file system reports into the reply to the request.
    pub fn finish(&mut self, req_id: u32, event: SftpEvent) -> (r: Vec<u8>)
        requires
            old(self).wf(),
            event matches SftpEvent::Opened(Ok(_)) ==> old(self)@.next < u32::MAX,
        ensures
            final(self).wf(),
            final(self)@ == state_after_event(old(self)@, event),
            r@ == event_reply(old(self)@.next, req_id, event),
    {
        match event {
            SftpEvent::Done(Ok(_)) => status(req_id, FX_OK, "OK"),
            SftpEvent::Done(Err(e)) => status(req_id, code_for(&e), e.message.as_str()),
            SftpEvent::PathFound(Ok(found)) => {
                let canon = strip_verbatim(found.0.as_str());
                let filename = to_sftp_path(canon.as_str());
                let mut names: Vec<NameEntry> = Vec::new();
                names.push(NameEntry { filename, meta: found.1 });
                assert(crate::sftp_attrs::name_views(names@) =~= seq![
                    NameView {
                        filename: crate::sftp_path::sftp_form(
                            crate::sftp_path::stripped(found.0@),
                        ),
                        meta: found.1,
                    },
                ]);
                name_packet(req_id, &names)
            },
            SftpEvent::PathFound(Err(e)) => status(req_id, code_for(&e), e.message.as_str()),
            SftpEvent::Stat(Ok(meta)) => attrs_packet(req_id, &meta),
            SftpEvent::Stat(Err(e)) => status(req_id, code_for(&e), e.message.as_str()),
            SftpEvent::FileStat(Ok(meta)) => attrs_packet(req_id, &meta),
            SftpEvent::FileStat(Err(e)) => status(req_id, FX_FAILURE, e.message.as_str()),
            SftpEvent::Opened(Ok(h)) => {
                let name = self.gen_handle(h);
                string_packet(SSH_FXP_HANDLE, req_id, name.as_str().as_bytes())
            },
            SftpEvent::Opened(Err(e)) => status(req_id, code_for(&e), e.message.as_str()),
            SftpEvent::Data(Ok(data)) => if data.len() == 0 {
                status(req_id, FX_EOF, "EOF")
            } else {
                string_packet(SSH_FXP_DATA, req_id, data.as_slice())
            },
            SftpEvent::Data(Err(e)) => status(req_id, FX_FAILURE, e.message.as_str()),
            SftpEvent::Written(Ok(_)) => status(req_id, FX_OK, "OK"),
            SftpEvent::Written(Err(e)) => status(req_id, FX_FAILURE, e.message.as_str()),
            SftpEvent::PermissionsSet => status(req_id, FX_OK, "OK"),
        }
    }

    /// The index of the next directory entry to look at, which then counts as
    /// read. There is none at the end of the directory, when the batch is full
    /// and when the handle is not that of a directory.
    pub fn next_entry(&mut self, batch: &DirBatch) -> (r: Option<usize>)
        requires
            old(self).wf(),
        ensures
            final(self).wf(),
            final(self)@ == state_after_entry(old(self)@, batch.handle@, batch.names@.len()),
            r == (if old(self)@.handles.contains_key(batch.handle@) {
                dir_next(old(self)@.handles[batch.handle@], batch.names@.len()).0
            } else {
                None
            }),
    {
        let ghost before = *self;
        match self.position(batch.handle.as_str()) {
            Some(p) => {
                if let SftpHandle::Dir { len, idx } = self.handles[p].state {
                    if idx < len && batch.names.len() < MAX_NAMES {
                        self.update_handle(p, SftpHandle::Dir { len, idx: idx + 1 });
                        return Some(idx);
                    }
                }
                assert(self@.handles =~= before@.handles.insert(
                    batch.handle@,
                    before@.handles[batch.handle@],
                ));
                None
            },
            None => None,
        }
    }

    /// Answers a directory read: the names that were found, or the end of the
    /// directory, which also closes the handle.
    pub fn finish_batch(&mut self, req_id: u32, batch: &DirBatch) -> (r: Vec<u8>)
        requires
            old(self).wf(),
        ensures
            final(self).wf(),
            final(self)@ == state_after_batch(old(self)@, batch.handle@, batch.names@.len()),
            r@ == batch_reply(req_id, crate::sftp_attrs::name_views(batch.names@)),
    {
        if batch.names.len() == 0 {
            let r = status(req_id, FX_EOF, "end of directory");
            self.remove_handle(batch.handle.as_str());
            r
        } else {
            name_packet(req_id, &batch.names)
        }
    }
}

impl DirBatch {
    /// Adds the name of an entry that could be read.
    pub fn add_name(&mut self, name: NameEntry)
        ensures
            final(self).handle == old(self).handle,
            final(self).names@ == old(self).names@.push(name),
    {
        self.names.push(name);
    }
}

/// `bytes` is a reply to the request with the given number: a packet of one of
/// the types that replies have, 101 to 105.
pub open spec fn replies_to(bytes: Seq<u8>, req_id: u32) -> bool {
    exists|typ: u8, payload: Seq<u8>|
        101 <= typ <= 105 && bytes == #[trigger] crate::wire::packet(typ, req_id, payload)
}

/// Every reply is a packet of one of the reply types and carries the number of
/// the request that it answers.
pub proof fn replies_carry_request_number(
    s: SftpView,
    req_id: u32,
    q: RequestView,
    event: SftpEvent,
    names: Seq<NameView>,
)
    ensures
        step_for(s, req_id, q) matches StepView::Reply(bytes) ==> replies_to(bytes, req_id),
        replies_to(event_reply(s.next, req_id, event), req_id),
        replies_to(batch_reply(req_id, names), req_id),
{
}

/// A client finds in a reply its type and the number of the request, and in its
/// length word the number of bytes that follow, where that fits in it.
pub proof fn replies_are_framed(bytes: Seq<u8>, req_id: u32)
    requires
        replies_to(bytes, req_id),
    ensures
        bytes.len() >= 9,
        101 <= bytes[4] <= 105,
        crate::wire::number_at(bytes, 5, 4) == req_id,
        bytes.len() - 4 < 0x1_0000_0000 ==> crate::wire::number_at(bytes, 0, 4) == bytes.len() - 4,
{
    let (typ, payload) = choose|typ: u8, payload: Seq<u8>|
        101 <= typ <= 105 && bytes == #[trigger] crate::wire::packet(typ, req_id, payload);
    crate::wire::packet_round_trip(typ, req_id, payload);
}

proof fn handle_name_is_injective(a: nat, b: nat)
    requires
        handle_name(a) == handle_name(b),
    ensures
        a == b,
{
    assert(crate::text::decimal(a) =~= handle_name(a).skip("h"@.len() as int));
    assert(crate::text::decimal(b) =~= handle_name(b).skip("h"@.len() as int));
    crate::text::decimal_is_injective(a, b);
}

/// The open handles of a server have names that have been given out.
pub proof fn open_handles_are_issued(s: Sftp)
    requires
        s.wf(),
    ensures
        s@.wf(),
{
    assert forall|name: Seq<char>| #[trigger] s@.handles.contains_key(name) implies issued(
        s@,
        name,
    ) by {
        let i = choose|i: int| entry_at(s.handles@, name, i);
        let k = choose|k: nat|
            1 <= k < s.next && s.handles@[i].name@ == #[trigger] handle_name(k);
        assert(name == handle_name(k));
    }
}

/// What moves the state of a server.
pub enum SftpMove {
    /// A request is looked at.
    Request(RequestView),
    /// The file system reports.
    Event(SftpEvent),
    /// A directory read takes a step, with `count` names so far.
    Entry { handle: Seq<char>, count: nat },
    /// A directory read with `count` names ends.
    Batch { handle: Seq<char>, count: nat },
}

/// The state after a move.
pub open spec fn moved(s: SftpView, m: SftpMove) -> SftpView {
    match m {
        SftpMove::Request(q) => state_after(s, q),
        SftpMove::Event(e) => state_after_event(s, e),
        SftpMove::Entry { handle, count } => state_after_entry(s, handle, count),
        SftpMove::Batch { handle, count } => state_after_batch(s, handle, count),
    }
}

/// The state after a row of moves.
pub open spec fn moved_all(s: SftpView, moves: Seq<SftpMove>) -> SftpView
    decreases moves.len(),
{
    if moves.len() == 0 {
        s
    } else {
        moved_all(moved(s, moves[0]), moves.drop_first())
    }
}

/// A number is left for every handle that the moves give out.
pub open spec fn numbers_suffice(s: SftpView, moves: Seq<SftpMove>) -> bool
    decreases moves.len(),
{
    if moves.len() == 0 {
        true
    } else {
        &&& moves[0] matches SftpMove::Event(SftpEvent::Opened(Ok(_))) ==> s.next < u32::MAX
        &&& numbers_suffice(moved(s, moves[0]), moves.drop_first())
    }
}

/// A name that was given out and closed is never valid again and never given out
/// again, whatever requests follow.
pub proof fn closed_names_stay_closed(s: SftpView, name: Seq<char>, moves: Seq<SftpMove>)
    requires
        s.wf(),
        issued(s, name),
        !s.handles.contains_key(name),
        numbers_suffice(s, moves),
    ensures
        moved_all(s, moves).wf(),
        issued(moved_all(s, moves), name),
        !moved_all(s, moves).handles.contains_key(name),
        handle_name(moved_all(s, moves).next as nat) != name,
    decreases moves.len(),
{
    let id = choose|id: nat| 1 <= id < s.next && name == #[trigger] handle_name(id);
    if moves.len() == 0 {
        if handle_name(s.next as nat) == name {
            handle_name_is_injective(s.next as nat, id);
        }
    } else {
        let t = moved(s, moves[0]);
        if handle_name(s.next as nat) == name {
            handle_name_is_injective(s.next as nat, id);
        }
        assert(t.next >= s.next);
        assert(issued(t, name)) by {
            assert(1 <= id < t.next && name == handle_name(id));
        }
        assert forall|other: Seq<char>| #[trigger] t.handles.contains_key(other) implies issued(
            t,
            other,
        ) by {
            if s.handles.contains_key(other) {
                let k = choose|k: nat| 1 <= k < s.next && other == #[trigger] handle_name(k);
                assert(1 <= k < t.next && other == handle_name(k));
            } else {
                assert(other == handle_name(s.next as nat));
            }
        }
        closed_names_stay_closed(t, name, moves.drop_first());
    }
}

/// A new handle differs from every open one, stands for what was opened, and
/// leaves the others as they were.
pub proof fn new_handle_is_usable(s: Sftp, event: SftpEvent, h: SftpHandle)
    requires
        s.wf(),
        s@.next < u32::MAX,
        event == SftpEvent::Opened(Ok(h)),
    ensures
        !s@.handles.contains_key(handle_name(s@.next as nat)),
        state_after_event(s@, event).handles.contains_key(handle_name(s@.next as nat)),
        state_after_event(s@, event).handles[handle_name(s@.next as nat)] == h,
        forall|name: Seq<char>| #[trigger]
            s@.handles.contains_key(name) ==> state_after_event(s@, event).handles.contains_key(
                name,
            ) && state_after_event(s@, event).handles[name] == s@.handles[name],
{
    let name = handle_name(s@.next as nat);
    if s@.handles.contains_key(name) {
        let i = choose|i: int| entry_at(s.handles@, name, i);
        let k = choose|k: nat|
            1 <= k < s.next && s.handles@[i].name@ == #[trigger] handle_name(k);
        handle_name_is_injective(k, s.next as nat);
    }
}

/// After a close request every request on the handle is refused, and no other
/// handle is touched.
pub proof fn closed_handle_is_invalid(
    s: SftpView,
    handle: Seq<char>,
    req_id: u32,
    offset: u64,
    len: u32,
    data: Seq<u8>,
)
    ensures
        ({
            let t = state_after(s, RequestView::Close { handle });
            &&& step_for(t, req_id, RequestView::Read { handle, offset, len }) == invalid_handle(
                req_id,
            )
            &&& step_for(t, req_id, RequestView::Write { handle, offset, data }) == invalid_handle(
                req_id,
            )
            &&& step_for(t, req_id, RequestView::Fstat { handle }) == invalid_handle(req_id)
            &&& step_for(t, req_id, RequestView::Readdir { handle }) == invalid_handle(req_id)
            &&& forall|name: Seq<char>|
                name != handle ==> #[trigger] t.handles.contains_key(name)
                    == s.handles.contains_key(name) && t.handles[name] == s.handles[name]
        }),
{
}

/// One directory read over entries of which `readable` says which can be
/// read, from entry `idx` and with `count` names so far: the entries that are
/// named and the entry that the next read starts with.
pub open spec fn batch(readable: Seq<bool>, idx: usize, count: nat) -> (Seq<int>, usize)
    decreases readable.len() - idx,
{
    match dir_next(SftpHandle::Dir { len: readable.len() as usize, idx }, count) {
        (Some(i), SftpHandle::Dir { len: _, idx: next }) => if idx < readable.len()
            && readable.len() <= usize::MAX {
            if readable[i as int] {
                let (names, end) = batch(readable, next, count + 1);
                (seq![i as int] + names, end)
            } else {
                batch(readable, next, count)
            }
        } else {
            (Seq::empty(), idx)
        },
        _ => (Seq::empty(), idx),
    }
}

/// The readable entries from `from` up to `to`, in order.
pub open spec fn readable_between(readable: Seq<bool>, from: int, to: int) -> Seq<int>
    decreases to - from,
{
    if from >= to {
        Seq::empty()
    } else if readable[from] {
        seq![from] + readable_between(readable, from + 1, to)
    } else {
        readable_between(readable, from + 1, to)
    }
}

/// One directory read names the readable entries from where it starts to where
/// it ends, in order and at most `MAX_NAMES` of them, and names none only where
/// no readable entry is left.
pub proof fn batch_names_readable_entries(readable: Seq<bool>, idx: usize, count: nat)
    requires
        readable.len() <= usize::MAX,
        idx <= readable.len(),
        count <= MAX_NAMES,
    ensures
        idx <= batch(readable, idx, count).1 <= readable.len(),
        batch(readable, idx, count).0 == readable_between(
            readable,
            idx as int,
            batch(readable, idx, count).1 as int,
        ),
        count + batch(readable, idx, count).0.len() <= MAX_NAMES,
        batch(readable, idx, count).1 < readable.len() ==> count + batch(
            readable,
            idx,
            count,
        ).0.len() == MAX_NAMES,
    decreases readable.len() - idx,
{
    if idx < readable.len() && count < MAX_NAMES {
        let next = (idx + 1) as usize;
        if readable[idx as int] {
            batch_names_readable_entries(readable, next, count + 1);
        } else {
            batch_names_readable_entries(readable, next, count);
        }
    }
}

/// All names that a client gets by reading a directory until a read names
/// none, from entry `idx`.
pub open spec fn listing(readable: Seq<bool>, idx: usize) -> Seq<int>
    decreases readable.len() - idx,
{
    let (names, end) = batch(readable, idx, 0);
    if names.len() == 0 || end <= idx || end > readable.len() {
        names
    } else {
        names + listing(readable, end)
    }
}

/// Reading a directory to its end names every readable entry once, in order.
pub proof fn listing_is_complete(readable: Seq<bool>, idx: usize)
    requires
        readable.len() <= usize::MAX,
        idx <= readable.len(),
    ensures
        listing(readable, idx) == readable_between(readable, idx as int, readable.len() as int),
    decreases readable.len() - idx,
{
    batch_names_readable_entries(readable, idx, 0);
    let (names, end) = batch(readable, idx, 0);
    if names.len() == 0 {
    } else {
        if end == idx {
            assert(readable_between(readable, idx as int, end as int).len() == 0);
        }
        listing_is_complete(readable, end);
        readable_splits(readable, idx as int, end as int, readable.len() as int);
    }
}

proof fn readable_splits(readable: Seq<bool>, a: int, b: int, c: int)
    requires
        a <= b <= c,
    ensures
        readable_between(readable, a, c) == readable_between(readable, a, b) + readable_between(
            readable,
            b,
            c,
        ),
    decreases b - a,
{
    if a < b {
        readable_splits(readable, a + 1, b, c);
        assert(readable_between(readable, a, c) =~= readable_between(readable, a, b)
            + readable_between(readable, b, c));
    } else {
        assert(readable_between(readable, a, b) =~= Seq::empty());
        assert(readable_between(readable, a, c) =~= readable_between(readable, a, b)
            + readable_between(readable, b, c));
    }
}

/// The request is answered without the file system: it closes a handle, it sets
/// nothing that the server sets, or it is not supported.
pub open spec fn needs_no_file_system(q: RequestView) -> bool {
    match q {
        RequestView::Close { .. } => true,
        RequestView::Fsetstat => true,
        RequestView::Setstat { permissions, .. } => permissions is None,
        RequestView::Unsupported => true,
        _ => false,
    }
}

/// The handle that a request needs a file behind.
pub open spec fn file_handle(q: RequestView) -> Option<Seq<char>> {
    match q {
        RequestView::Read { handle, .. } => Some(handle),
        RequestView::Write { handle, .. } => Some(handle),
        RequestView::Fstat { handle } => Some(handle),
        _ => None,
    }
}

/// A request is carried out as it stands, and answered without the file system
/// only where it needs none or is refused. On a handle that stands for an open
/// file, reading, writing and fstat are carried out; on any other they are
/// refused. A directory that is open is listed, and nothing else is. Requests on
/// a path are always carried out.
pub proof fn requests_are_carried_out(s: SftpView, req_id: u32, q: RequestView)
    ensures
        step_for(s, req_id, q) matches StepView::Perform(p) ==> p == q && !needs_no_file_system(q),
        step_for(s, req_id, q) matches StepView::Reply(bytes) ==> needs_no_file_system(q)
            || bytes == status_reply(req_id, 4, "invalid handle"@),
        file_handle(q) matches Some(h) ==> (if s.handles.contains_key(h) && s.handles[h]
            == SftpHandle::File {
            step_for(s, req_id, q) == StepView::Perform(q)
        } else {
            step_for(s, req_id, q) == StepView::Reply(
                status_reply(req_id, 4, "invalid handle"@),
            )
        }),
        q matches RequestView::Readdir { handle } ==> (if s.handles.contains_key(handle)
            && s.handles[handle] is Dir {
            step_for(s, req_id, q) == (StepView::List { handle })
        } else {
            step_for(s, req_id, q) == StepView::Reply(
                status_reply(req_id, 4, "invalid handle"@),
            )
        }),
        step_for(s, req_id, q) is List ==> q is Readdir,
        !needs_no_file_system(q) && file_handle(q) is None && !(q is Readdir) ==> step_for(
            s,
            req_id,
            q,
        ) == StepView::Perform(q),
        q is Close || q is Fsetstat || (q is Setstat && needs_no_file_system(q)) ==> step_for(
            s,
            req_id,
            q,
        ) == StepView::Reply(status_reply(req_id, 0, "OK"@)),
        q is Unsupported ==> step_for(s, req_id, q) == StepView::Reply(
            status_reply(req_id, 8, "operation unsupported"@),
        ),
{
}

/// Only a close request changes the handles, and only the one that it names; only
/// what is opened gives out a handle.
pub proof fn handles_change_by_open_and_close(s: SftpView, q: RequestView, event: SftpEvent)
    ensures
        !(q is Close) ==> state_after(s, q) == s,
        q matches RequestView::Close { handle } ==> {
            let t = state_after(s, q);
            &&& t.next == s.next
            &&& !t.handles.contains_key(handle)
            &&& forall|name: Seq<char>|
                name != handle ==> (#[trigger] t.handles.contains_key(name)
                    == s.handles.contains_key(name) && t.handles[name] == s.handles[name])
        },
        !(event matches SftpEvent::Opened(Ok(_))) ==> state_after_event(s, event) == s,
        event matches SftpEvent::Opened(Ok(h)) ==> s.next < u32::MAX ==> {
            let t = state_after_event(s, event);
            &&& t.next == s.next + 1
            &&& t.handles.contains_key(handle_name(s.next as nat))
            &&& t.handles[handle_name(s.next as nat)] == h
        },
{
}

/// The first nine bytes of a packet: length, type and number.
proof fn packet_head(typ: u8, req_id: u32, payload: Seq<u8>) -> (h: Seq<u8>)
    ensures
        h.len() == 9,
        crate::wire::packet(typ, req_id, payload) == h + payload,
        crate::wire::packet(typ, req_id, payload)[4] == typ,
{
    let h = crate::wire::be(5 + payload.len(), 4) + seq![typ] + crate::wire::be(req_id as nat, 4);
    crate::wire::be_round_trip(5 + payload.len(), 4);
    crate::wire::be_round_trip(req_id as nat, 4);
    crate::wire::packet_round_trip(typ, req_id, payload);
    assert(crate::wire::packet(typ, req_id, payload) =~= h + payload);
    h
}

/// A reply is a status with the given code and message.
pub open spec fn says_status(reply: Seq<u8>, code: int, message: Seq<char>) -> bool {
    &&& reply.len() >= 13
    &&& reply[4] == 101
    &&& crate::wire::number_at(reply, 9, 4) == code
    &&& encode_utf8(message).len() < 0x1_0000_0000 ==> crate::wire::has_string(reply, 13)
        && crate::wire::string_at(reply, 13) == encode_utf8(message)
}

/// A reply has the given type and holds one string.
pub open spec fn says_string(reply: Seq<u8>, typ: int, text: Seq<u8>) -> bool {
    &&& reply.len() >= 9
    &&& reply[4] == typ
    &&& text.len() < 0x1_0000_0000 ==> crate::wire::has_string(reply, 9) && crate::wire::string_at(
        reply,
        9,
    ) == text
}

/// A reply tells the attributes of a file.
pub open spec fn says_attrs(reply: Seq<u8>, meta: FileMeta) -> bool {
    &&& reply.len() >= 9
    &&& reply[4] == 105
    &&& crate::wire::has_attrs(reply, 9)
    &&& crate::wire::attrs_at(reply, 9) == crate::sftp_attrs::sent_attrs(Some(meta))
}

/// A reply names files: their number, and then each of them, in order.
pub open spec fn says_names(reply: Seq<u8>, names: Seq<NameView>) -> bool {
    &&& reply.len() >= 13
    &&& reply[4] == 104
    &&& names.len() < 0x1_0000_0000 ==> crate::wire::number_at(reply, 9, 4) == names.len()
    &&& forall|i: int|
        0 <= i < names.len() ==> {
            let front = 13int + crate::sftp_attrs::names_wire(#[trigger] names.take(i)).len();
            let one = crate::sftp_attrs::name_wire(names[i]);
            front + one.len() <= reply.len() && reply.subrange(front, front + one.len())
                == one
        }
}

proof fn status_reply_says(req_id: u32, code: u32, message: Seq<char>)
    ensures
        says_status(status_reply(req_id, code, message), code as int, message),
{
    let c = crate::wire::be(code as nat, 4);
    let m = crate::wire::wire_string(encode_utf8(message));
    let l = crate::wire::wire_string(encode_utf8("en-US"@));
    let h = packet_head(SSH_FXP_STATUS, req_id, c + m + l);
    let r = status_reply(req_id, code, message);
    crate::wire::be_limits();
    crate::wire::be_round_trip(code as nat, 4);
    crate::wire::number_round_trip(h, code as nat, 4, m + l);
    assert(h + c + (m + l) =~= r);
    if encode_utf8(message).len() < 0x1_0000_0000 {
        crate::wire::string_round_trip(h + c, encode_utf8(message), l);
        assert(h + c + m + l =~= r);
    }
}

proof fn string_reply_says(typ: u8, req_id: u32, text: Seq<u8>)
    ensures
        says_string(
            crate::wire::packet(typ, req_id, crate::wire::wire_string(text)),
            typ as int,
            text,
        ),
{
    let t = crate::wire::wire_string(text);
    let h = packet_head(typ, req_id, t);
    if text.len() < 0x1_0000_0000 {
        crate::wire::string_round_trip(h, text, Seq::empty());
        assert(h + t + Seq::<u8>::empty() =~= h + t);
    }
}

proof fn attrs_reply_says(req_id: u32, meta: FileMeta)
    ensures
        says_attrs(attrs_reply(req_id, meta), meta),
{
    let a = crate::sftp_attrs::attrs_wire(meta);
    let h = packet_head(SSH_FXP_ATTRS, req_id, a);
    crate::sftp_attrs::attrs_round_trip(meta);
    crate::wire::attrs_stand_anywhere(h, a);
}

proof fn name_reply_says(req_id: u32, names: Seq<NameView>)
    ensures
        says_names(name_reply(req_id, names), names),
{
    let p = crate::sftp_attrs::name_payload(names);
    let n = crate::wire::be(names.len(), 4);
    let h = packet_head(SSH_FXP_NAME, req_id, p);
    let r = name_reply(req_id, names);
    crate::wire::be_limits();
    crate::wire::be_round_trip(names.len(), 4);
    assert(r.subrange(9, 13) =~= n);
    assert forall|i: int| 0 <= i < names.len() implies ({
        let front = 13int + crate::sftp_attrs::names_wire(#[trigger] names.take(i)).len();
        let one = crate::sftp_attrs::name_wire(names[i]);
        front + one.len() <= r.len() && r.subrange(front, front + one.len()) == one
    }) by {
        crate::sftp_attrs::names_are_sent_in_order(names, i);
        let a = crate::sftp_attrs::names_wire(names.take(i));
        let one = crate::sftp_attrs::name_wire(names[i]);
        let b = crate::sftp_attrs::names_wire(names.skip(i + 1));
        assert(r =~= (h + n + a) + one + b);
        let front = (h + n + a).len() as int;
        assert(r.subrange(front, front + one.len()) =~= one);
    }
}

/// What the file system reports is what the client reads: success as status 0,
/// data as it was read, with status 1 at the end of the file, the name of the new
/// handle, the attributes of a file and the path that was found. An error comes
/// with its message, as status 2 where nothing was found, 3 where permission is
/// lacking and 4 otherwise; on an open file it is always 4.
pub proof fn replies_tell_what_happened(next: u32, req_id: u32, event: SftpEvent)
    ensures
        ({
            let r = event_reply(next, req_id, event);
            match event {
                SftpEvent::Done(Ok(_)) => says_status(r, 0, "OK"@),
                SftpEvent::Written(Ok(_)) => says_status(r, 0, "OK"@),
                SftpEvent::PermissionsSet => says_status(r, 0, "OK"@),
                SftpEvent::Data(Ok(data)) => if data@.len() == 0 {
                    says_status(r, 1, "EOF"@)
                } else {
                    says_string(r, 103, data@)
                },
                SftpEvent::Opened(Ok(_)) => says_string(
                    r,
                    102,
                    encode_utf8("h"@ + crate::text::decimal(next as nat)),
                ),
                SftpEvent::Stat(Ok(meta)) => says_attrs(r, meta),
                SftpEvent::FileStat(Ok(meta)) => says_attrs(r, meta),
                SftpEvent::PathFound(Ok(found)) => says_names(
                    r,
                    seq![
                        NameView {
                            filename: crate::sftp_path::sftp_form(
                                crate::sftp_path::stripped(found.0@),
                            ),
                            meta: found.1,
                        },
                    ],
                ),
                SftpEvent::Done(Err(e)) => says_status(r, told_code(e), e.message@),
                SftpEvent::PathFound(Err(e)) => says_status(r, told_code(e), e.message@),
                SftpEvent::Stat(Err(e)) => says_status(r, told_code(e), e.message@),
                SftpEvent::Opened(Err(e)) => says_status(r, told_code(e), e.message@),
                SftpEvent::FileStat(Err(e)) => says_status(r, 4, e.message@),
                SftpEvent::Data(Err(e)) => says_status(r, 4, e.message@),
                SftpEvent::Written(Err(e)) => says_status(r, 4, e.message@),
            }
        }),
{
    match event {
        SftpEvent::Done(Ok(_)) => status_reply_says(req_id, 0, "OK"@),
        SftpEvent::Written(Ok(_)) => status_reply_says(req_id, 0, "OK"@),
        SftpEvent::PermissionsSet => status_reply_says(req_id, 0, "OK"@),
        SftpEvent::Data(Ok(data)) => {
            status_reply_says(req_id, 1, "EOF"@);
            string_reply_says(SSH_FXP_DATA, req_id, data@);
        },
        SftpEvent::Opened(Ok(_)) => string_reply_says(
            SSH_FXP_HANDLE,
            req_id,
            encode_utf8(handle_name(next as nat)),
        ),
        SftpEvent::Stat(Ok(meta)) => attrs_reply_says(req_id, meta),
        SftpEvent::FileStat(Ok(meta)) => attrs_reply_says(req_id, meta),
        SftpEvent::PathFound(Ok(found)) => name_reply_says(
            req_id,
            seq![
                NameView {
                    filename: crate::sftp_path::sftp_form(crate::sftp_path::stripped(found.0@)),
                    meta: found.1,
                },
            ],
        ),
        SftpEvent::Done(Err(e)) => status_reply_says(req_id, status_code(e.kind), e.message@),
        SftpEvent::PathFound(Err(e)) => status_reply_says(req_id, status_code(e.kind), e.message@),
        SftpEvent::Stat(Err(e)) => status_reply_says(req_id, status_code(e.kind), e.message@),
        SftpEvent::Opened(Err(e)) => status_reply_says(req_id, status_code(e.kind), e.message@),
        SftpEvent::FileStat(Err(e)) => status_reply_says(req_id, 4, e.message@),
        SftpEvent::Data(Err(e)) => status_reply_says(req_id, 4, e.message@),
        SftpEvent::Written(Err(e)) => status_reply_says(req_id, 4, e.message@),
    }
}

/// The code by which a client is told of an error of the file system.
pub open spec fn told_code(e: IoError) -> int {
    if e.kind is NotFound {
        2
    } else if e.kind is PermissionDenied {
        3
    } else {
        4
    }
}

/// A directory read is answered by the names that were found, in order, or by
/// status 1 where there are none; then the handle is closed, and only then.
pub proof fn directory_reads_are_answered(
    s: SftpView,
    handle: Seq<char>,
    req_id: u32,
    names: Seq<NameView>,
)
    ensures
        names.len() > 0 ==> says_names(batch_reply(req_id, names), names) && state_after_batch(
            s,
            handle,
            names.len(),
        ) == s,
        names.len() == 0 ==> says_status(batch_reply(req_id, names), 1, "end of directory"@)
            && state_after_batch(s, handle, 0) == (SftpView {
            handles: s.handles.remove(handle),
            ..s
        }),
{
    status_reply_says(req_id, 1, "end of directory"@);
    name_reply_says(req_id, names);
}

/// A directory read looks at the entries one after the other, each once, until
/// all have been looked at or a hundred names have been found, and it touches no
/// other handle.
pub proof fn directory_entries_are_taken_in_turn(
    s: SftpView,
    handle: Seq<char>,
    len: usize,
    idx: usize,
    count: nat,
)
    requires
        s.handles.contains_key(handle),
        s.handles[handle] == (SftpHandle::Dir { len, idx }),
    ensures
        idx < len && count < 100 ==> dir_next(s.handles[handle], count).0 == Some(idx)
            && state_after_entry(s, handle, count).handles[handle] == (SftpHandle::Dir {
            len,
            idx: (idx + 1) as usize,
        }),
        !(idx < len && count < 100) ==> dir_next(s.handles[handle], count).0 is None
            && state_after_entry(s, handle, count).handles[handle] == s.handles[handle],
        state_after_entry(s, handle, count).next == s.next,
        state_after_entry(s, handle, count).handles.dom() =~= s.handles.dom(),
        forall|name: Seq<char>|
            name != handle && s.handles.contains_key(name) ==> #[trigger] state_after_entry(
                s,
                handle,
                count,
            ).handles[name] == s.handles[name],
{
}

} // verus!
