//! File metadata as SFTP replies carry it.
use vstd::prelude::*;
use vstd::string::*;
use vstd::utf8::encode_utf8;
use crate::text::decimal_text;
use crate::wire::{Pkt, ATTR_ACMODTIME, ATTR_PERMISSIONS, ATTR_SIZE};

verus! {

/// What a reply says of a file.
#[derive(Clone, Copy)]
pub struct FileMeta {
    pub size: u64,
    pub permissions: u32,
    pub is_dir: bool,
    pub is_symlink: bool,
    pub atime: u32,
    pub mtime: u32,
}

/// The permission bits of a file: those of the file system where it has them,
/// otherwise a default for the kind of file.
pub open spec fn mode_of(mode: Option<u32>, is_dir: bool, is_symlink: bool) -> u32 {
    match mode {
        Some(m) => m,
        None => if is_dir {
            0o40_755u32
        } else if is_symlink {
            0o120_777u32
        } else {
            0o100_644u32
        },
    }
}

/// The permission bits of a file.
pub fn permission_mode(mode: Option<u32>, is_dir: bool, is_symlink: bool) -> (r: u32)
    ensures
        r == mode_of(mode, is_dir, is_symlink),
        r == match mode {
            Some(m) => m,
            None => if is_dir {
                0o40_755u32
            } else if is_symlink {
                0o120_777u32
            } else {
                0o100_644u32
            },
        },
{
    match mode {
        Some(m) => m,
        None => if is_dir {
            0o40_755
        } else if is_symlink {
            0o120_777
        } else {
            0o100_644
        },
    }
}

/// Seconds since the epoch in four bytes; an unknown time is zero.
pub open spec fn wire_seconds(t: Option<u64>) -> u32 {
    match t {
        Some(s) => (s % 0x1_0000_0000) as u32,
        None => 0,
    }
}

fn seconds(t: Option<u64>) -> (r: u32)
    ensures
        r == wire_seconds(t),
{
    match t {
        Some(s) => (s % 0x1_0000_0000) as u32,
        None => 0,
    }
}

/// Access and modification time in seconds since the epoch, in four bytes each.
pub open spec fn wire_times(accessed: Option<u64>, modified: Option<u64>) -> (u32, u32) {
    (wire_seconds(accessed), wire_seconds(modified))
}

/// Access and modification time in seconds since the epoch.
pub fn times(accessed: Option<u64>, modified: Option<u64>) -> (r: (u32, u32))
    ensures
        r == wire_times(accessed, modified),
        r == (wire_seconds(accessed), wire_seconds(modified)),
{
    (seconds(accessed), seconds(modified))
}

/// The letter where the bit is set, `-` where it is not.
pub open spec fn mode_char(set: bool, c: char) -> char {
    if set {
        c
    } else {
        '-'
    }
}

/// `rwxrwxrwx` with `-` for each permission that is not granted.
pub open spec fn mode_chars(perm: u32) -> Seq<char> {
    seq![
        mode_char(perm & 0o400 != 0, 'r'),
        mode_char(perm & 0o200 != 0, 'w'),
        mode_char(perm & 0o100 != 0, 'x'),
        mode_char(perm & 0o040 != 0, 'r'),
        mode_char(perm & 0o020 != 0, 'w'),
        mode_char(perm & 0o010 != 0, 'x'),
        mode_char(perm & 0o004 != 0, 'r'),
        mode_char(perm & 0o002 != 0, 'w'),
        mode_char(perm & 0o001 != 0, 'x'),
    ]
}

fn push_mode(s: &mut String, set: bool, c: char)
    ensures
        final(s)@ == old(s)@.push(mode_char(set, c)),
{
    if set {
        s.push(c);
    } else {
        s.push('-');
    }
}

/// The permission bits as `ls -l` shows them.
pub fn mode_string(perm: u32) -> (r: String)
    ensures
        r@ == mode_chars(perm),
{
    let mut s = String::new();
    push_mode(&mut s, perm & 0o400 != 0, 'r');
    push_mode(&mut s, perm & 0o200 != 0, 'w');
    push_mode(&mut s, perm & 0o100 != 0, 'x');
    push_mode(&mut s, perm & 0o040 != 0, 'r');
    push_mode(&mut s, perm & 0o020 != 0, 'w');
    push_mode(&mut s, perm & 0o010 != 0, 'x');
    push_mode(&mut s, perm & 0o004 != 0, 'r');
    push_mode(&mut s, perm & 0o002 != 0, 'w');
    push_mode(&mut s, perm & 0o001 != 0, 'x');
    assert(s@ =~= mode_chars(perm));
    s
}

/// The attributes of a file on the wire: flags, size, permissions, access and
/// modification time.
pub open spec fn attrs_wire(meta: FileMeta) -> Seq<u8> {
    crate::wire::be(13, 4) + crate::wire::be(meta.size as nat, 8) + crate::wire::be(
        meta.permissions as nat,
        4,
    ) + crate::wire::be(meta.atime as nat, 4) + crate::wire::be(meta.mtime as nat, 4)
}

/// Encodes the attributes of a file.
pub fn attrs_bytes(meta: &FileMeta) -> (r: Vec<u8>)
    ensures
        r@ == attrs_wire(*meta),
{
    let mut p = Pkt::new();
    let flags: u32 = ATTR_SIZE | ATTR_PERMISSIONS | ATTR_ACMODTIME;
    assert(0x1u32 | 0x4u32 | 0x8u32 == 13u32) by (bit_vector);
    p.u32(flags);
    p.u64(meta.size);
    p.u32(meta.permissions);
    p.u32(meta.atime);
    p.u32(meta.mtime);
    assert(p.buf@ =~= attrs_wire(*meta));
    p.buf
}

/// The letter that `ls -l` shows for the kind of file.
pub open spec fn kind_char(meta: FileMeta) -> char {
    if meta.is_dir {
        'd'
    } else if meta.is_symlink {
        'l'
    } else {
        '-'
    }
}

/// The long form of a directory entry.
pub open spec fn long_form(filename: Seq<char>, meta: FileMeta) -> Seq<char> {
    seq![kind_char(meta)] + " "@ + mode_chars(meta.permissions) + " 1 user group "@
        + crate::text::decimal(meta.size as nat) + " Jan 1 1970 "@ + filename
}

/// Formats a directory entry in the manner of `ls -l`.
pub fn longname(filename: &str, meta: &FileMeta) -> (r: String)
    ensures
        r@ == long_form(filename@, *meta),
{
    let mut out = String::new();
    if meta.is_dir {
        out.push('d');
    } else if meta.is_symlink {
        out.push('l');
    } else {
        out.push('-');
    }
    assert(out@ =~= seq![kind_char(*meta)]);
    out.append(" ");
    let mode = mode_string(meta.permissions);
    out.append(mode.as_str());
    out.append(" 1 user group ");
    let size = decimal_text(meta.size);
    out.append(size.as_str());
    out.append(" Jan 1 1970 ");
    out.append(filename);
    out
}

/// One name of a name reply, with what is known of the file.
pub struct NameEntry {
    pub filename: String,
    pub meta: Option<FileMeta>,
}

/// The contents of a `NameEntry`.
pub struct NameView {
    pub filename: Seq<char>,
    pub meta: Option<FileMeta>,
}

impl View for NameEntry {
    type V = NameView;

    open spec fn view(&self) -> NameView {
        NameView { filename: self.filename@, meta: self.meta }
    }
}

/// The contents of a list of names.
pub open spec fn name_views(names: Seq<NameEntry>) -> Seq<NameView> {
    Seq::new(names.len(), |i: int| names[i]@)
}

/// One name on the wire: the file name, its long form and the attributes. A
/// file of which nothing is known has its name as long form and a set of
/// attributes that is empty.
pub open spec fn name_wire(name: NameView) -> Seq<u8> {
    let short = crate::wire::wire_string(encode_utf8(name.filename));
    match name.meta {
        Some(meta) => short + crate::wire::wire_string(encode_utf8(long_form(name.filename, meta)))
            + attrs_wire(meta),
        None => short + short + crate::wire::be(0, 4),
    }
}

/// Names on the wire, in order.
pub open spec fn names_wire(names: Seq<NameView>) -> Seq<u8>
    decreases names.len(),
{
    if names.len() == 0 {
        Seq::empty()
    } else {
        names_wire(names.drop_last()) + name_wire(names.last())
    }
}

/// The payload of a name reply: the number of names, then the names.
pub open spec fn name_payload(names: Seq<NameView>) -> Seq<u8> {
    crate::wire::be(names.len(), 4) + names_wire(names)
}

/// Encodes the payload of a name reply.
pub fn name_payload_bytes(names: &Vec<NameEntry>) -> (r: Vec<u8>)
    ensures
        r@ == name_payload(name_views(names@)),
{
    let mut p = Pkt::new();
    let n: u32 = (names.len() as u64 % 0x1_0000_0000) as u32;
    p.u32(n);
    let ghost all = name_views(names@);
    proof {
        crate::wire::be_limits();
        crate::wire::be_low_bytes(all.len(), 4);
        assert(p.buf@ =~= crate::wire::be(all.len(), 4) + names_wire(all.take(0)));
    }
    let mut i: usize = 0;
    while i < names.len()
        invariant
            i <= names@.len(),
            all == name_views(names@),
            p.buf@ == crate::wire::be(all.len(), 4) + names_wire(all.take(i as int)),
        decreases names@.len() - i,
    {
        let ghost before = p.buf@;
        let name = &names[i];
        p.string(name.filename.as_str().as_bytes());
        match &name.meta {
            Some(meta) => {
                let long = longname(name.filename.as_str(), meta);
                p.string(long.as_str().as_bytes());
                let attrs = attrs_bytes(meta);
                p.bytes(attrs.as_slice());
            },
            None => {
                p.string(name.filename.as_str().as_bytes());
                p.u32(0);
            },
        }
        assert(p.buf@ =~= before + name_wire(all[i as int]));
        i = i + 1;
        proof {
            let t = all.take(i as int);
            assert(t.drop_last() =~= all.take(i - 1));
            assert(p.buf@ =~= crate::wire::be(all.len(), 4) + names_wire(t));
        }
    }
    assert(all.take(i as int) =~= all);
    p.buf
}

/// A client reads from encoded attributes the size, permissions and times
/// that were encoded.
pub proof fn attrs_round_trip(meta: FileMeta)
    ensures
        crate::wire::has_attrs(attrs_wire(meta), 0),
        crate::wire::attrs_end(attrs_wire(meta), 0) == attrs_wire(meta).len(),
        crate::wire::attrs_at(attrs_wire(meta), 0) == (crate::wire::Attrs {
            size: Some(meta.size),
            atime: Some(meta.atime as u64),
            mtime: Some(meta.mtime as u64),
            permissions: Some(meta.permissions),
        }),
{
    use_wire_numbers(meta);
    assert(13u32 & 0x1u32 != 0 && 13u32 & 0x2u32 == 0 && 13u32 & 0x4u32 != 0 && 13u32 & 0x8u32
        != 0) by (bit_vector);
}

proof fn use_wire_numbers(meta: FileMeta)
    ensures
        attrs_wire(meta).len() == 24,
        crate::wire::number_at(attrs_wire(meta), 0, 4) == 13,
        crate::wire::number_at(attrs_wire(meta), 4, 8) == meta.size,
        crate::wire::number_at(attrs_wire(meta), 12, 4) == meta.permissions,
        crate::wire::number_at(attrs_wire(meta), 16, 4) == meta.atime,
        crate::wire::number_at(attrs_wire(meta), 20, 4) == meta.mtime,
{
    let f = crate::wire::be(13, 4);
    let s = crate::wire::be(meta.size as nat, 8);
    let p = crate::wire::be(meta.permissions as nat, 4);
    let a = crate::wire::be(meta.atime as nat, 4);
    let m = crate::wire::be(meta.mtime as nat, 4);
    let w = attrs_wire(meta);
    crate::wire::be_limits();
    crate::wire::be_round_trip(13, 4);
    crate::wire::be_round_trip(meta.size as nat, 8);
    crate::wire::be_round_trip(meta.permissions as nat, 4);
    crate::wire::be_round_trip(meta.atime as nat, 4);
    crate::wire::be_round_trip(meta.mtime as nat, 4);
    assert(w.subrange(0, 4) =~= f);
    assert(w.subrange(4, 12) =~= s);
    assert(w.subrange(12, 16) =~= p);
    assert(w.subrange(16, 20) =~= a);
    assert(w.subrange(20, 24) =~= m);
}

/// The long form of a name of a name reply.
pub open spec fn long_name(name: NameView) -> Seq<char> {
    match name.meta {
        Some(meta) => long_form(name.filename, meta),
        None => name.filename,
    }
}

/// The attributes that a client reads of a name: those of the file, or none.
pub open spec fn sent_attrs(meta: Option<FileMeta>) -> crate::wire::Attrs {
    match meta {
        Some(m) => crate::wire::Attrs {
            size: Some(m.size),
            atime: Some(m.atime as u64),
            mtime: Some(m.mtime as u64),
            permissions: Some(m.permissions),
        },
        None => crate::wire::Attrs { size: None, atime: None, mtime: None, permissions: None },
    }
}

/// A client reads from an encoded name, wherever it stands, the file name, its
/// long form and the attributes, and then stands behind the name, whether or not
/// the file is known.
pub proof fn name_round_trip(front: Seq<u8>, name: NameView, back: Seq<u8>)
    requires
        encode_utf8(name.filename).len() < 0x1_0000_0000,
        encode_utf8(long_name(name)).len() < 0x1_0000_0000,
    ensures
        ({
            let s = front + name_wire(name) + back;
            let p = front.len() as int;
            let q = crate::wire::string_end(s, p);
            let r = crate::wire::string_end(s, q);
            &&& crate::wire::has_string(s, p)
            &&& crate::wire::string_at(s, p) == encode_utf8(name.filename)
            &&& crate::wire::has_string(s, q)
            &&& crate::wire::string_at(s, q) == encode_utf8(long_name(name))
            &&& crate::wire::has_attrs(s, r)
            &&& crate::wire::attrs_at(s, r) == sent_attrs(name.meta)
            &&& crate::wire::attrs_end(s, r) == p + name_wire(name).len()
        }),
{
    let s = front + name_wire(name) + back;
    let short = encode_utf8(name.filename);
    let long = encode_utf8(long_name(name));
    let a = crate::wire::wire_string(short);
    let b = crate::wire::wire_string(long);
    let c = match name.meta {
        Some(meta) => attrs_wire(meta),
        None => crate::wire::be(0, 4),
    };
    assert(name_wire(name) =~= a + b + c);
    crate::wire::be_limits();
    crate::wire::be_round_trip(short.len(), 4);
    crate::wire::be_round_trip(long.len(), 4);
    crate::wire::be_round_trip(0, 4);
    crate::wire::string_round_trip(front, short, b + c + back);
    assert(front + a + (b + c + back) =~= s);
    crate::wire::string_round_trip(front + a, long, c + back);
    assert(front + a + b + (c + back) =~= s);
    let r = (front.len() + a.len() + b.len()) as int;
    assert(crate::wire::string_end(s, crate::wire::string_end(s, front.len() as int)) == r);
    assert(s.subrange(r, r + c.len()) =~= c);
    match name.meta {
        Some(meta) => {
            use_wire_numbers(meta);
            assert(13u32 & 0x1u32 != 0 && 13u32 & 0x2u32 == 0 && 13u32 & 0x4u32 != 0 && 13u32
                & 0x8u32 != 0) by (bit_vector);
            assert(s.subrange(r, r + 4) =~= c.subrange(0, 4));
            assert(s.subrange(r + 4, r + 12) =~= c.subrange(4, 12));
            assert(s.subrange(r + 12, r + 16) =~= c.subrange(12, 16));
            assert(s.subrange(r + 16, r + 20) =~= c.subrange(16, 20));
            assert(s.subrange(r + 20, r + 24) =~= c.subrange(20, 24));
        },
        None => {
            assert(0u32 & 0x1u32 == 0 && 0u32 & 0x2u32 == 0 && 0u32 & 0x4u32 == 0 && 0u32 & 0x8u32
                == 0) by (bit_vector);
        },
    }
}

/// Each letter of the permissions stands for one binary digit of them, from the
/// owner's right to read down to the right of others to execute.
pub proof fn mode_letters_are_the_binary_digits(perm: u32)
    ensures
        mode_chars(perm).len() == 9,
        mode_chars(perm)[0] == (if (perm / 256) % 2 == 1 {
            'r'
        } else {
            '-'
        }),
        mode_chars(perm)[1] == (if (perm / 128) % 2 == 1 {
            'w'
        } else {
            '-'
        }),
        mode_chars(perm)[2] == (if (perm / 64) % 2 == 1 {
            'x'
        } else {
            '-'
        }),
        mode_chars(perm)[3] == (if (perm / 32) % 2 == 1 {
            'r'
        } else {
            '-'
        }),
        mode_chars(perm)[4] == (if (perm / 16) % 2 == 1 {
            'w'
        } else {
            '-'
        }),
        mode_chars(perm)[5] == (if (perm / 8) % 2 == 1 {
            'x'
        } else {
            '-'
        }),
        mode_chars(perm)[6] == (if (perm / 4) % 2 == 1 {
            'r'
        } else {
            '-'
        }),
        mode_chars(perm)[7] == (if (perm / 2) % 2 == 1 {
            'w'
        } else {
            '-'
        }),
        mode_chars(perm)[8] == (if (perm / 1) % 2 == 1 {
            'x'
        } else {
            '-'
        }),
{
    assert((perm & 0o400u32 != 0) == ((perm / 256) % 2 == 1)) by (bit_vector);
    assert((perm & 0o200u32 != 0) == ((perm / 128) % 2 == 1)) by (bit_vector);
    assert((perm & 0o100u32 != 0) == ((perm / 64) % 2 == 1)) by (bit_vector);
    assert((perm & 0o040u32 != 0) == ((perm / 32) % 2 == 1)) by (bit_vector);
    assert((perm & 0o020u32 != 0) == ((perm / 16) % 2 == 1)) by (bit_vector);
    assert((perm & 0o010u32 != 0) == ((perm / 8) % 2 == 1)) by (bit_vector);
    assert((perm & 0o004u32 != 0) == ((perm / 4) % 2 == 1)) by (bit_vector);
    assert((perm & 0o002u32 != 0) == ((perm / 2) % 2 == 1)) by (bit_vector);
    assert((perm & 0o001u32 != 0) == ((perm / 1) % 2 == 1)) by (bit_vector);
}

/// Permissions that the file system knows are told as they are; unknown ones are
/// those of a directory that all may read and enter, of a link that is open to
/// all, or of a file that all may read, and the owner may write.
pub proof fn known_permissions_are_told(m: u32, is_dir: bool, is_symlink: bool)
    ensures
        mode_of(Some(m), is_dir, is_symlink) == m,
        mode_of(None, is_dir, is_symlink) == (if is_dir {
            16384 + 7 * 64 + 5 * 8 + 5
        } else if is_symlink {
            40960 + 7 * 64 + 7 * 8 + 7
        } else {
            32768 + 6 * 64 + 4 * 8 + 4
        }),
{
}

/// Times are told in their order, to the second as far as four bytes hold them;
/// an unknown time is zero.
pub proof fn times_are_told(accessed: u64, modified: u64)
    requires
        accessed < 0x1_0000_0000,
        modified < 0x1_0000_0000,
    ensures
        wire_times(Some(accessed), Some(modified)) == (accessed as u32, modified as u32),
        wire_times(None, Some(modified)) == (0u32, modified as u32),
        wire_times(Some(accessed), None) == (accessed as u32, 0u32),
{
}

/// The long form of a name shows the kind of the file, its permissions, its size
/// in decimal and, at the end, its name, each of them whole.
pub proof fn long_form_shows_the_file(filename: Seq<char>, meta: FileMeta)
    ensures
        ({
            let f = long_form(filename, meta);
            let size = crate::text::decimal(meta.size as nat);
            &&& f.len() == 37 + size.len() + filename.len()
            &&& f[0] == 'd' <==> meta.is_dir
            &&& f[0] == 'l' <==> !meta.is_dir && meta.is_symlink
            &&& f[0] == '-' <==> !meta.is_dir && !meta.is_symlink
            &&& f.subrange(2, 11) == mode_chars(meta.permissions)
            &&& f.subrange(25, 25int + size.len()) == size
            &&& crate::text::decimal_value(f.subrange(25, 25int + size.len())) == meta.size
            &&& f.skip(37int + size.len()) == filename
        }),
{
    let f = long_form(filename, meta);
    let size = crate::text::decimal(meta.size as nat);
    reveal_strlit(" ");
    reveal_strlit(" 1 user group ");
    reveal_strlit(" Jan 1 1970 ");
    crate::text::decimal_reads_as_the_number(meta.size as nat);
    assert(f.subrange(2, 11) =~= mode_chars(meta.permissions));
    assert(f.subrange(25, 25int + size.len()) =~= size);
    assert(f.skip(37int + size.len()) =~= filename);
}

/// The names of a reply stand in it one behind the other, in their order.
pub proof fn names_are_sent_in_order(names: Seq<NameView>, i: int)
    requires
        0 <= i < names.len(),
    ensures
        names_wire(names) == names_wire(names.take(i)) + name_wire(names[i]) + names_wire(
            names.skip(i + 1),
        ),
    decreases names.len(),
{
    let front = names.drop_last();
    if i == names.len() - 1 {
        assert(names.take(i) =~= front);
        assert(names.skip(i + 1) =~= Seq::empty());
        assert(names_wire(names) =~= names_wire(names.take(i)) + name_wire(names[i]) + names_wire(
            names.skip(i + 1),
        ));
    } else {
        names_are_sent_in_order(front, i);
        assert(front.take(i) =~= names.take(i));
        let rest = names.skip(i + 1);
        assert(rest.drop_last() =~= front.skip(i + 1));
        assert(rest.last() == names.last());
        assert(names_wire(names) =~= names_wire(names.take(i)) + name_wire(names[i]) + names_wire(
            rest,
        ));
    }
}

/// Seconds that fit in four bytes are sent as they are; of others the low four
/// bytes are sent.
pub proof fn late_times_lose_their_high_bytes(s: u64, k: u64)
    requires
        s < 0x1_0000_0000,
        s + k * 0x1_0000_0000 <= u64::MAX,
    ensures
        wire_seconds(Some(s)) == s,
        wire_seconds(Some((s + k * 0x1_0000_0000) as u64)) == s,
        wire_seconds(None) == 0,
{
    assert((s + k * 0x1_0000_0000) % 0x1_0000_0000 == s);
}

} // verus!
