//! Conversion between native paths and the POSIX-style paths of SFTP.
use vstd::prelude::*;
use vstd::string::*;
use crate::text::{chars_of, string_of};

verus! {

/// `s` with every `from` replaced by `to`.
pub open spec fn replaced(s: Seq<char>, from: char, to: char) -> Seq<char> {
    Seq::new(s.len(), |i: int| if s[i] == from { to } else { s[i] })
}

/// An ASCII letter.
pub open spec fn ascii_letter(c: char) -> bool {
    'a' <= c <= 'z' || 'A' <= c <= 'Z'
}

/// A drive designator such as `C:` stands at `i`.
pub open spec fn drive_at(s: Seq<char>, i: int) -> bool {
    i + 2 <= s.len() && ascii_letter(s[i]) && s[i + 1] == ':'
}

/// The prefix of a verbatim path.
pub open spec fn verbatim() -> Seq<char> {
    "\\\\?\\"@
}

/// The prefix of a verbatim path on a network share.
pub open spec fn verbatim_unc() -> Seq<char> {
    "\\\\?\\UNC\\"@
}

/// `s` without its verbatim prefix; a network share keeps its two backslashes.
pub open spec fn stripped(s: Seq<char>) -> Seq<char> {
    if verbatim_unc().is_prefix_of(s) {
        "\\\\"@ + s.skip(verbatim_unc().len() as int)
    } else if verbatim().is_prefix_of(s) {
        s.skip(verbatim().len() as int)
    } else {
        s
    }
}

/// The SFTP form of a native path: no verbatim prefix, `/` as separator, and
/// `/` in front of a drive.
pub open spec fn sftp_form(s: Seq<char>) -> Seq<char> {
    let t = replaced(stripped(s), '\\', '/');
    if drive_at(t, 0) {
        seq!['/'] + t
    } else {
        t
    }
}

/// The Windows form of an SFTP path: `\` as separator, no separator in front
/// of a drive, and a bare drive as its root.
pub open spec fn windows_form(path: Seq<char>) -> Seq<char> {
    let s = replaced(path, '/', '\\');
    let t = if s.len() > 0 && s[0] == '\\' && drive_at(s, 1) {
        s.drop_first()
    } else {
        s
    };
    if t.len() == 2 && drive_at(t, 0) {
        t.push('\\')
    } else {
        t
    }
}

/// The native form of an SFTP path.
pub open spec fn native_form(path: Seq<char>, windows: bool) -> Seq<char> {
    if windows {
        windows_form(path)
    } else {
        path
    }
}

fn replace_char(s: &str, from: char, to: char) -> (r: Vec<char>)
    ensures
        r@ == replaced(s@, from, to),
{
    let cs = chars_of(s);
    let mut out: Vec<char> = Vec::new();
    let mut i: usize = 0;
    while i < cs.len()
        invariant
            i <= cs@.len(),
            cs@ == s@,
            out@ == replaced(s@.take(i as int), from, to),
        decreases cs@.len() - i,
    {
        let c = cs[i];
        if c == from {
            out.push(to);
        } else {
            out.push(c);
        }
        i = i + 1;
        assert(out@ =~= replaced(s@.take(i as int), from, to));
    }
    assert(s@.take(i as int) =~= s@);
    out
}

fn is_drive(cs: &Vec<char>, i: usize) -> (r: bool)
    ensures
        r == drive_at(cs@, i as int),
{
    i < cs.len() && cs.len() - i >= 2 && (('a' <= cs[i] && cs[i] <= 'z') || ('A' <= cs[i] && cs[i]
        <= 'Z')) && cs[i + 1] == ':'
}

/// What follows `prefix` in `s`, where `s` starts with it.
fn strip_prefix(s: &str, prefix: &str) -> (r: Option<String>)
    ensures
        prefix@.is_prefix_of(s@) ==> (r matches Some(t) && t@ == s@.skip(prefix@.len() as int)),
        !prefix@.is_prefix_of(s@) ==> r is None,
{
    let cs = chars_of(s);
    let ps = chars_of(prefix);
    if ps.len() > cs.len() {
        return None;
    }
    let mut i: usize = 0;
    while i < ps.len()
        invariant
            i <= ps@.len() <= cs@.len(),
            cs@ == s@,
            ps@ == prefix@,
            forall|j: int| 0 <= j < i ==> ps@[j] == cs@[j],
        decreases ps@.len() - i,
    {
        if ps[i] != cs[i] {
            assert(!prefix@.is_prefix_of(s@)) by {
                assert(prefix@[i as int] != s@.subrange(0, prefix@.len() as int)[i as int]);
            }
            return None;
        }
        i = i + 1;
    }
    assert(prefix@ =~= s@.subrange(0, prefix@.len() as int));
    assert(s@.subrange(ps@.len() as int, cs@.len() as int) =~= s@.skip(prefix@.len() as int));
    Some(string_of(cs.as_slice(), ps.len(), cs.len()))
}

/// Removes the verbatim prefix that Windows puts in front of canonical paths.
pub fn strip_verbatim(p: &str) -> (r: String)
    ensures
        r@ == stripped(p@),
{
    match strip_prefix(p, "\\\\?\\UNC\\") {
        Some(rest) => crate::text::cat("\\\\", rest.as_str()),
        None => match strip_prefix(p, "\\\\?\\") {
            Some(rest) => rest,
            None => p.to_owned(),
        },
    }
}

/// Formats a native path the way SFTP clients expect it.
pub fn to_sftp_path(p: &str) -> (r: String)
    ensures
        r@ == sftp_form(p@),
{
    let s = strip_verbatim(p);
    let cs = replace_char(s.as_str(), '\\', '/');
    let t = string_of(cs.as_slice(), 0, cs.len());
    assert(t@ =~= cs@);
    if is_drive(&cs, 0) {
        let mut out = String::new();
        out.push('/');
        out.append(t.as_str());
        assert(out@ =~= seq!['/'] + cs@);
        out
    } else {
        t
    }
}

/// Converts an SFTP path from a client into a native path.
pub fn from_sftp_path(path: &str, windows: bool) -> (r: String)
    ensures
        r@ == native_form(path@, windows),
{
    if !windows {
        return path.to_owned();
    }
    let cs = replace_char(path, '/', '\\');
    let from: usize = if cs.len() > 0 && cs[0] == '\\' && is_drive(&cs, 1) {
        1
    } else {
        0
    };
    let mut out = string_of(cs.as_slice(), from, cs.len());
    assert(from == 1 ==> out@ =~= cs@.drop_first());
    assert(from == 0 ==> out@ =~= cs@);
    if cs.len() - from == 2 && is_drive(&cs, from) {
        assert(drive_at(out@, 0));
        out.push('\\');
    } else {
        assert(!(out@.len() == 2 && drive_at(out@, 0)));
    }
    out
}

/// Where a client's path leads.
pub enum ResolvedPath {
    /// The server's working directory itself.
    Root,
    /// An absolute path, used as it is.
    Absolute(String),
    /// A path below the server's working directory.
    Relative(String),
}

/// Resolves a native path: the empty path and `.` are the working directory,
/// absolute paths are used verbatim, others are relative to the working
/// directory. `absolute` says whether the platform takes the path as absolute.
pub fn resolve(native: String, absolute: bool) -> (r: ResolvedPath)
    ensures
        native@.len() == 0 || native@ == "."@ ==> r is Root,
        !(native@.len() == 0 || native@ == "."@) && absolute ==> r == ResolvedPath::Absolute(native),
        !(native@.len() == 0 || native@ == "."@) && !absolute ==> r == ResolvedPath::Relative(
            native,
        ),
{
    if native.as_str().is_empty() || crate::text::str_eq(native.as_str(), ".") {
        ResolvedPath::Root
    } else if absolute {
        ResolvedPath::Absolute(native)
    } else {
        ResolvedPath::Relative(native)
    }
}

/// On Windows `from_sftp_path` undoes `to_sftp_path` on every path that is
/// written with backslashes only, has no verbatim prefix, is not a bare drive
/// and does not start with a separator in front of a drive.
pub proof fn native_path_round_trip(p: Seq<char>)
    requires
        forall|i: int| 0 <= i < p.len() ==> p[i] != '/',
        !verbatim().is_prefix_of(p),
        !(p.len() == 2 && drive_at(p, 0)),
        !(p.len() > 0 && p[0] == '\\' && drive_at(p, 1)),
    ensures
        windows_form(sftp_form(p)) == p,
{
    unc_is_verbatim(p);
    let t = replaced(p, '\\', '/');
    assert(stripped(p) == p);
    assert(replaced(t, '/', '\\') =~= p);
    assert(drive_at(t, 0) == drive_at(p, 0));
    let q = sftp_form(p);
    if drive_at(t, 0) {
        assert(q == seq!['/'] + t);
        assert(replaced(q, '/', '\\') =~= seq!['\\'] + p);
        assert((seq!['\\'] + p).drop_first() =~= p);
        assert(drive_at(seq!['\\'] + p, 1));
    }
}

/// On Windows `to_sftp_path` undoes `from_sftp_path` on every SFTP path that
/// holds no backslash and is neither a drive path without its leading `/`,
/// nor a bare drive, nor the form of a verbatim prefix.
pub proof fn sftp_path_round_trip(q: Seq<char>)
    requires
        forall|i: int| 0 <= i < q.len() ==> q[i] != '\\',
        !drive_at(q, 0),
        !(q.len() == 3 && q[0] == '/' && drive_at(q, 1)),
        !verbatim().is_prefix_of(windows_form(q)),
    ensures
        sftp_form(windows_form(q)) == q,
{
    let s = replaced(q, '/', '\\');
    let p = windows_form(q);
    unc_is_verbatim(p);
    assert(stripped(p) == p);
    assert(drive_at(s, 0) == drive_at(q, 0));
    if s.len() > 0 && s[0] == '\\' && drive_at(s, 1) {
        assert(drive_at(q, 1));
        assert(p == s.drop_first());
        let t = replaced(p, '\\', '/');
        assert(t =~= q.drop_first());
        assert(seq!['/'] + t =~= q);
        assert(drive_at(t, 0));
    } else {
        assert(p == s);
        assert(replaced(p, '\\', '/') =~= q);
    }
}

proof fn unc_is_verbatim(p: Seq<char>)
    ensures
        verbatim_unc().is_prefix_of(p) ==> verbatim().is_prefix_of(p),
{
    reveal_strlit("\\\\?\\");
    reveal_strlit("\\\\?\\UNC\\");
    if verbatim_unc().is_prefix_of(p) {
        let u = verbatim_unc();
        let v = verbatim();
        assert(v =~= u.subrange(0, 4));
        assert(u =~= p.subrange(0, 8));
        assert(v =~= p.subrange(0, 4));
    }
}

/// The verbatim prefix is removed whatever path follows it, and that of a network
/// share leaves the two backslashes of the share. Other paths stay as they are.
pub proof fn verbatim_prefixes_are_removed(p: Seq<char>)
    ensures
        !"UNC\\"@.is_prefix_of(p) ==> stripped("\\\\?\\"@ + p) == p,
        stripped("\\\\?\\UNC\\"@ + p) == "\\\\"@ + p,
        !"\\\\?\\"@.is_prefix_of(p) ==> stripped(p) == p,
{
    reveal_strlit("\\\\?\\");
    reveal_strlit("\\\\?\\UNC\\");
    reveal_strlit("UNC\\");
    let v = verbatim();
    let u = verbatim_unc();
    unc_is_verbatim(p);
    let a = u + p;
    assert(a.subrange(0, u.len() as int) =~= u);
    assert(a.skip(u.len() as int) =~= p);
    let b = v + p;
    assert(b.subrange(0, v.len() as int) =~= v);
    assert(b.skip(v.len() as int) =~= p);
    if u.is_prefix_of(b) {
        assert(p.len() >= 4);
        assert("UNC\\"@ =~= p.subrange(0, 4)) by {
            assert forall|i: int| 0 <= i < 4 implies #[trigger] "UNC\\"@[i] == p[i] by {
                assert("UNC\\"@[i] == u[i + 4]);
                assert(u[i + 4] == b.subrange(0, 8)[i + 4]);
                assert(b[i + 4] == p[i]);
            }
        }
    }
}

/// A path without backslashes and without a drive in front reads the same to an
/// SFTP client, and a client's path reads the same where the server is not on
/// Windows.
pub proof fn plain_paths_stay(p: Seq<char>)
    ensures
        (forall|i: int| 0 <= i < p.len() ==> p[i] != '\\') && !drive_at(p, 0) ==> sftp_form(p)
            == p,
        native_form(p, false) == p,
{
    reveal_strlit("\\\\?\\");
    if (forall|i: int| 0 <= i < p.len() ==> p[i] != '\\') && !drive_at(p, 0) {
        if verbatim().is_prefix_of(p) {
            assert(verbatim()[0] == p.subrange(0, 4)[0]);
            assert(p[0] == '\\');
        }
        unc_is_verbatim(p);
        assert(replaced(p, '\\', '/') =~= p);
    }
}

/// No SFTP form holds a backslash and no Windows form a slash; each keeps the other
/// characters where they are, behind the `/` that goes before a drive.
pub proof fn separators_are_exchanged(p: Seq<char>)
    ensures
        forall|i: int| 0 <= i < sftp_form(p).len() ==> #[trigger] sftp_form(p)[i] != '\\',
        forall|i: int| 0 <= i < windows_form(p).len() ==> #[trigger] windows_form(p)[i] != '/',
        ({
            let s = stripped(p);
            let shift = if drive_at(s, 0) {
                1int
            } else {
                0
            };
            &&& sftp_form(p).len() == s.len() + shift
            &&& shift == 1 ==> sftp_form(p)[0] == '/'
            &&& forall|i: int|
                0 <= i < s.len() ==> (#[trigger] s[i] != '\\' ==> sftp_form(p)[i + shift] == s[i])
            &&& forall|i: int|
                0 <= i < s.len() ==> (#[trigger] s[i] == '\\' ==> sftp_form(p)[i + shift] == '/')
        }),
{
    let s = stripped(p);
    let t = replaced(s, '\\', '/');
    assert(drive_at(t, 0) == drive_at(s, 0));
}

/// On Windows a drive alone is its root directory, with and without the `/` that
/// goes before it.
pub proof fn drives_are_their_roots(c: char)
    requires
        ascii_letter(c),
    ensures
        windows_form(seq![c, ':']) == seq![c, ':', '\\'],
        windows_form(seq!['/', c, ':']) == seq![c, ':', '\\'],
        windows_form(seq!['/', c, ':', '/']) == seq![c, ':', '\\'],
{
    assert(replaced(seq![c, ':'], '/', '\\') =~= seq![c, ':']);
    assert(seq![c, ':'].push('\\') =~= seq![c, ':', '\\']);
    let a = seq!['\\', c, ':'];
    assert(replaced(seq!['/', c, ':'], '/', '\\') =~= a);
    assert(a.drop_first() =~= seq![c, ':']);
    let b = seq!['\\', c, ':', '\\'];
    assert(replaced(seq!['/', c, ':', '/'], '/', '\\') =~= b);
    assert(b.drop_first() =~= seq![c, ':', '\\']);
}

} // verus!
