//! SFTP wire format: big-endian integers, length-prefixed strings, file
//! attributes and packet frames.
use vstd::prelude::*;
use vstd::slice::*;

verus! {

pub const SFTP_VERSION: u32 = 3;

// request packet types
pub const SSH_FXP_INIT: u8 = 1;
pub const SSH_FXP_VERSION: u8 = 2;
pub const SSH_FXP_OPEN: u8 = 3;
pub const SSH_FXP_CLOSE: u8 = 4;
pub const SSH_FXP_READ: u8 = 5;
pub const SSH_FXP_WRITE: u8 = 6;
pub const SSH_FXP_LSTAT: u8 = 7;
pub const SSH_FXP_FSTAT: u8 = 8;
pub const SSH_FXP_SETSTAT: u8 = 9;
pub const SSH_FXP_FSETSTAT: u8 = 10;
pub const SSH_FXP_OPENDIR: u8 = 11;
pub const SSH_FXP_READDIR: u8 = 12;
pub const SSH_FXP_REMOVE: u8 = 13;
pub const SSH_FXP_MKDIR: u8 = 14;
pub const SSH_FXP_RMDIR: u8 = 15;
pub const SSH_FXP_REALPATH: u8 = 16;
pub const SSH_FXP_STAT: u8 = 17;
pub const SSH_FXP_RENAME: u8 = 18;
pub const SSH_FXP_READLINK: u8 = 19;
pub const SSH_FXP_SYMLINK: u8 = 20;

// response packet types
pub const SSH_FXP_STATUS: u8 = 101;
pub const SSH_FXP_HANDLE: u8 = 102;
pub const SSH_FXP_DATA: u8 = 103;
pub const SSH_FXP_NAME: u8 = 104;
pub const SSH_FXP_ATTRS: u8 = 105;

// attribute flags
pub const ATTR_SIZE: u32 = 0x0000_0001;
pub const ATTR_UIDGID: u32 = 0x0000_0002;
pub const ATTR_PERMISSIONS: u32 = 0x0000_0004;
pub const ATTR_ACMODTIME: u32 = 0x0000_0008;

/// The `n` low bytes of `v`, most significant first.
pub open spec fn be(v: nat, n: nat) -> Seq<u8>
    decreases n,
{
    if n == 0 {
        Seq::empty()
    } else {
        be(v / 256, (n - 1) as nat).push((v % 256) as u8)
    }
}

/// The number whose big-endian notation is `s`.
pub open spec fn be_value(s: Seq<u8>) -> nat
    decreases s.len(),
{
    if s.len() == 0 {
        0
    } else {
        256 * be_value(s.drop_last()) + s.last() as nat
    }
}

/// The number of values that `n` bytes can hold.
pub open spec fn be_limit(n: nat) -> nat
    decreases n,
{
    if n == 0 {
        1
    } else {
        256 * be_limit((n - 1) as nat)
    }
}

/// `be` gives `n` bytes, and they read back as `v` where `v` fits in them.
pub proof fn be_round_trip(v: nat, n: nat)
    ensures
        be(v, n).len() == n,
        v < be_limit(n) ==> be_value(be(v, n)) == v,
    decreases n,
{
    if n > 0 {
        be_round_trip(v / 256, (n - 1) as nat);
        let s = be(v, n);
        assert(s.drop_last() =~= be(v / 256, (n - 1) as nat));
        assert(s.last() as nat == v % 256);
    }
}

/// Bytes read as a number and written again are the same bytes.
pub proof fn be_value_round_trip(s: Seq<u8>)
    ensures
        be(be_value(s), s.len()) == s,
        be_value(s) < be_limit(s.len()),
    decreases s.len(),
{
    if s.len() > 0 {
        let t = s.drop_last();
        be_value_round_trip(t);
        let v = be_value(s);
        assert(v / 256 == be_value(t) && v % 256 == s.last() as nat);
        assert(be(v, s.len()) =~= s);
    }
}

/// The values that four and eight bytes hold are those of `u32` and `u64`.
pub proof fn be_limits()
    ensures
        be_limit(4) == 0x1_0000_0000,
        be_limit(8) == 0x1_0000_0000_0000_0000,
{
    reveal_with_fuel(be_limit, 9);
}

/// `n` bytes can be read at `pos`.
pub open spec fn has_bytes(s: Seq<u8>, pos: int, n: int) -> bool {
    0 <= pos && pos + n <= s.len()
}

/// The `n`-byte number at `pos`.
pub open spec fn number_at(s: Seq<u8>, pos: int, n: int) -> nat {
    be_value(s.subrange(pos, pos + n))
}

/// A length-prefixed string can be read at `pos`.
pub open spec fn has_string(s: Seq<u8>, pos: int) -> bool {
    has_bytes(s, pos, 4) && string_end(s, pos) <= s.len()
}

/// Where the string at `pos` ends.
pub open spec fn string_end(s: Seq<u8>, pos: int) -> int {
    pos + 4 + number_at(s, pos, 4)
}

/// The bytes of the string at `pos`.
pub open spec fn string_at(s: Seq<u8>, pos: int) -> Seq<u8> {
    s.subrange(pos + 4, string_end(s, pos))
}

/// A string on the wire: its length in four bytes, then its bytes.
pub open spec fn wire_string(s: Seq<u8>) -> Seq<u8> {
    be(s.len(), 4) + s
}

/// A packet on the wire: the length of what follows, the type, the request
/// number and the payload.
pub open spec fn packet(typ: u8, req_id: u32, payload: Seq<u8>) -> Seq<u8> {
    be(5 + payload.len(), 4) + seq![typ] + be(req_id as nat, 4) + payload
}

/// File attributes as a client sends them.
#[derive(Clone, Copy)]
pub struct Attrs {
    pub size: Option<u64>,
    pub atime: Option<u64>,
    pub mtime: Option<u64>,
    pub permissions: Option<u32>,
}

/// Where the permissions start in attributes at `pos`.
pub open spec fn attrs_permissions_pos(flags: u32, pos: int) -> int {
    pos + 4 + (if flags & ATTR_SIZE != 0 { 8int } else { 0 }) + (if flags & ATTR_UIDGID != 0 {
        8int
    } else {
        0
    })
}

/// Where the times start in attributes at `pos`.
pub open spec fn attrs_times_pos(flags: u32, pos: int) -> int {
    attrs_permissions_pos(flags, pos) + (if flags & ATTR_PERMISSIONS != 0 { 4int } else { 0 })
}

/// Where attributes at `pos` end.
pub open spec fn attrs_end(s: Seq<u8>, pos: int) -> int {
    let flags = number_at(s, pos, 4) as u32;
    attrs_times_pos(flags, pos) + (if flags & ATTR_ACMODTIME != 0 { 8int } else { 0 })
}

/// Attributes can be read at `pos`.
pub open spec fn has_attrs(s: Seq<u8>, pos: int) -> bool {
    has_bytes(s, pos, 4) && attrs_end(s, pos) <= s.len()
}

/// The attributes at `pos`: each is there where its flag is set. Owner and
/// group are skipped.
pub open spec fn attrs_at(s: Seq<u8>, pos: int) -> Attrs {
    let flags = number_at(s, pos, 4) as u32;
    let perm = attrs_permissions_pos(flags, pos);
    let times = attrs_times_pos(flags, pos);
    Attrs {
        size: if flags & ATTR_SIZE != 0 {
            Some(number_at(s, pos + 4, 8) as u64)
        } else {
            None
        },
        atime: if flags & ATTR_ACMODTIME != 0 {
            Some(number_at(s, times, 4) as u64)
        } else {
            None
        },
        mtime: if flags & ATTR_ACMODTIME != 0 {
            Some(number_at(s, times + 4, 4) as u64)
        } else {
            None
        },
        permissions: if flags & ATTR_PERMISSIONS != 0 {
            Some(number_at(s, perm, 4) as u32)
        } else {
            None
        },
    }
}

/// A big-endian reader over bytes.
pub struct Cur<'a> {
    pub buf: &'a [u8],
    pub pos: usize,
}

impl<'a> Cur<'a> {
    /// A reader at the start of `buf`.
    pub fn new(buf: &'a [u8]) -> (r: Self)
        ensures
            r.buf@ == buf@,
            r.pos == 0,
    {
        Self { buf, pos: 0 }
    }

    /// Whether `n` more bytes can be read.
    pub fn remains(&self, n: usize) -> (r: bool)
        ensures
            r == has_bytes(self.buf@, self.pos as int, n as int),
    {
        self.pos <= self.buf.len() && n <= self.buf.len() - self.pos
    }

    /// Reads one byte.
    pub fn take_u8(&mut self) -> (v: u8)
        requires
            has_bytes(old(self).buf@, old(self).pos as int, 1),
        ensures
            v == old(self).buf@[old(self).pos as int],
            final(self).buf == old(self).buf,
            final(self).pos == old(self).pos + 1,
    {
        let v = self.buf[self.pos];
        self.pos = self.pos + 1;
        v
    }

    /// Reads a four-byte number.
    pub fn take_u32(&mut self) -> (v: u32)
        requires
            has_bytes(old(self).buf@, old(self).pos as int, 4),
        ensures
            v == number_at(old(self).buf@, old(self).pos as int, 4),
            final(self).buf == old(self).buf,
            final(self).pos == old(self).pos + 4,
    {
        let ghost s = self.buf@.subrange(self.pos as int, self.pos + 4);
        let b0: u32 = self.buf[self.pos] as u32;
        let b1: u32 = self.buf[self.pos + 1] as u32;
        let b2: u32 = self.buf[self.pos + 2] as u32;
        let b3: u32 = self.buf[self.pos + 3] as u32;
        self.pos = self.pos + 4;
        proof {
            reveal_with_fuel(be_value, 5);
            let s3 = s.drop_last();
            let s2 = s3.drop_last();
            let s1 = s2.drop_last();
            assert(s1.drop_last() =~= Seq::empty());
            assert(be_value(s1) == b0);
            assert(be_value(s2) == 256 * b0 + b1);
            assert(be_value(s3) == 256 * (256 * b0 + b1) + b2);
            assert(be_value(s) == 256 * (256 * (256 * b0 + b1) + b2) + b3);
        }
        ((b0 * 256 + b1) * 256 + b2) * 256 + b3
    }

    /// Reads an eight-byte number.
    pub fn take_u64(&mut self) -> (v: u64)
        requires
            has_bytes(old(self).buf@, old(self).pos as int, 8),
        ensures
            v == number_at(old(self).buf@, old(self).pos as int, 8),
            final(self).buf == old(self).buf,
            final(self).pos == old(self).pos + 8,
    {
        let ghost s = self.buf@.subrange(self.pos as int, self.pos + 8);
        let total: usize = self.buf.len();
        let mut v: u64 = 0;
        let mut i: usize = 0;
        proof {
            be_limits();
            be_value_round_trip(s);
        }
        while i < 8
            invariant
                i <= 8,
                total == self.buf@.len(),
                has_bytes(self.buf@, self.pos as int, 8),
                s == self.buf@.subrange(self.pos as int, self.pos + 8),
                v == be_value(s.take(i as int)),
                v < be_limit(i as nat),
                be_limit(8) == 0x1_0000_0000_0000_0000,
                *self == *old(self),
            decreases 8 - i,
        {
            proof {
                let t = s.take(i + 1);
                assert(t.drop_last() =~= s.take(i as int));
                be_value_round_trip(t);
                be_limit_grows((i + 1) as nat, 8);
            }
            v = v * 256 + self.buf[self.pos + i] as u64;
            i = i + 1;
        }
        assert(s.take(8) =~= s);
        self.pos = self.pos + 8;
        v
    }

    /// Reads a length-prefixed string.
    pub fn take_string(&mut self) -> (v: &'a [u8])
        requires
            has_string(old(self).buf@, old(self).pos as int),
        ensures
            v@ == string_at(old(self).buf@, old(self).pos as int),
            final(self).buf == old(self).buf,
            final(self).pos == string_end(old(self).buf@, old(self).pos as int),
    {
        let total: usize = self.buf.len();
        let n = self.take_u32() as usize;
        assert(self.pos + n <= total);
        let v = slice_subrange(self.buf, self.pos, self.pos + n);
        self.pos = self.pos + n;
        v
    }

    /// Reads file attributes.
    pub fn take_attrs(&mut self) -> (a: Attrs)
        requires
            has_attrs(old(self).buf@, old(self).pos as int),
        ensures
            a == attrs_at(old(self).buf@, old(self).pos as int),
            final(self).buf == old(self).buf,
            final(self).pos == attrs_end(old(self).buf@, old(self).pos as int),
    {
        let flags = self.take_u32();
        let mut a = Attrs { size: None, atime: None, mtime: None, permissions: None };
        if flags & ATTR_SIZE != 0 {
            a.size = Some(self.take_u64());
        }
        if flags & ATTR_UIDGID != 0 {
            let _uid = self.take_u32();
            let _gid = self.take_u32();
        }
        if flags & ATTR_PERMISSIONS != 0 {
            a.permissions = Some(self.take_u32());
        }
        if flags & ATTR_ACMODTIME != 0 {
            a.atime = Some(self.take_u32() as u64);
            a.mtime = Some(self.take_u32() as u64);
        }
        a
    }
}

proof fn be_limit_grows(m: nat, n: nat)
    requires
        m <= n,
    ensures
        be_limit(m) <= be_limit(n),
        0 < be_limit(m),
    decreases n,
{
    if m < n {
        be_limit_grows(m, (n - 1) as nat);
    } else if n > 0 {
        be_limit_grows((n - 1) as nat, (n - 1) as nat);
    }
}

/// A big-endian writer.
pub struct Pkt {
    pub buf: Vec<u8>,
}

impl Pkt {
    /// A writer that has written nothing.
    pub fn new() -> (r: Self)
        ensures
            r.buf@ == Seq::<u8>::empty(),
    {
        Self { buf: Vec::new() }
    }

    /// Writes one byte.
    pub fn u8(&mut self, v: u8)
        ensures
            final(self).buf@ == old(self).buf@.push(v),
    {
        self.buf.push(v);
    }

    /// Writes a four-byte number.
    pub fn u32(&mut self, v: u32)
        ensures
            final(self).buf@ == old(self).buf@ + be(v as nat, 4),
    {
        let ghost before = self.buf@;
        let v1: u32 = v / 256;
        let v2: u32 = v1 / 256;
        let v3: u32 = v2 / 256;
        self.buf.push((v3 % 256) as u8);
        self.buf.push((v2 % 256) as u8);
        self.buf.push((v1 % 256) as u8);
        self.buf.push((v % 256) as u8);
        proof {
            assert(be(v3 as nat / 256, 0) =~= Seq::empty());
            assert(be(v3 as nat, 1) =~= seq![(v3 % 256) as u8]);
            assert(be(v2 as nat, 2) =~= seq![(v3 % 256) as u8, (v2 % 256) as u8]);
            assert(be(v1 as nat, 3) =~= seq![
                (v3 % 256) as u8,
                (v2 % 256) as u8,
                (v1 % 256) as u8,
            ]);
            assert(self.buf@ =~= before + be(v as nat, 4));
        }
    }

    /// Writes an eight-byte number.
    pub fn u64(&mut self, v: u64)
        ensures
            final(self).buf@ == old(self).buf@ + be(v as nat, 8),
    {
        let ghost before = self.buf@;
        let high: u32 = (v / 0x1_0000_0000) as u32;
        let low: u32 = (v % 0x1_0000_0000) as u32;
        self.u32(high);
        self.u32(low);
        proof {
            be_limits();
            be_split(v as nat, 4, 4);
            assert(self.buf@ =~= before + be(v as nat, 8));
        }
    }

    /// Writes the given bytes.
    pub fn bytes(&mut self, s: &[u8])
        ensures
            final(self).buf@ == old(self).buf@ + s@,
    {
        self.buf.extend_from_slice(s);
        assert(self.buf@ =~= old(self).buf@ + s@);
    }

    /// Writes a length-prefixed string. The prefix holds the low four bytes
    /// of the length.
    pub fn string(&mut self, s: &[u8])
        ensures
            final(self).buf@ == old(self).buf@ + wire_string(s@),
    {
        let ghost before = self.buf@;
        let n: u32 = (s.len() as u64 % 0x1_0000_0000) as u32;
        self.u32(n);
        self.bytes(s);
        proof {
            be_limits();
            be_low_bytes(s@.len(), 4);
            assert(self.buf@ =~= before + wire_string(s@));
        }
    }
}

/// Bytes above the `n` low ones do not matter.
pub proof fn be_low_bytes(v: nat, n: nat)
    ensures
        be(v % be_limit(n), n) == be(v, n),
    decreases n,
{
    be_limit_grows(0, n);
    if n > 0 {
        let m = be_limit((n - 1) as nat) as int;
        be_limit_grows(0, (n - 1) as nat);
        be_low_bytes(v / 256, (n - 1) as nat);
        let w = v as int % (256 * m);
        vstd::arithmetic::div_mod::lemma_mod_breakdown(v as int, 256, m);
        assert(w == 256 * ((v as int / 256) % m) + v as int % 256);
        assert(w / 256 == (v as int / 256) % m && w % 256 == v as int % 256);
    }
}

/// `be` splits at any byte.
pub proof fn be_split(v: nat, m: nat, n: nat)
    ensures
        be(v, m + n) == be(v / be_limit(n), m) + be(v % be_limit(n), n),
    decreases n,
{
    be_limit_grows(0, n);
    if n == 0 {
        assert(be_limit(n) == 1);
        vstd::arithmetic::div_mod::lemma_div_basics(v as int);
        assert(v / be_limit(n) == v);
        assert(be(v % be_limit(n), n) =~= Seq::empty());
        assert(be(v, m + n) =~= be(v / be_limit(n), m) + be(v % be_limit(n), n));
    } else {
        let k = be_limit((n - 1) as nat) as int;
        be_limit_grows(0, (n - 1) as nat);
        be_split(v / 256, m, (n - 1) as nat);
        be_low_bytes(v, n);
        vstd::arithmetic::div_mod::lemma_mod_breakdown(v as int, 256, k);
        vstd::arithmetic::div_mod::lemma_div_denominator(v as int, 256, k);
        let w = v as int % (256 * k);
        assert(w == 256 * ((v as int / 256) % k) + v as int % 256);
        assert(w / 256 == (v as int / 256) % k && w % 256 == v as int % 256);
        assert(be(v, m + n) =~= be(v / be_limit(n), m) + be(v % be_limit(n), n));
    }
}

/// Frames a packet: `[u32 length][u8 type][u32 req_id][payload]`.
pub fn wire(typ: u8, req_id: u32, payload: &[u8]) -> (r: Vec<u8>)
    ensures
        r@ == packet(typ, req_id, payload@),
{
    let len: u32 = ((payload.len() as u128 + 5) % 0x1_0000_0000) as u32;
    let mut out = Pkt::new();
    out.u32(len);
    out.u8(typ);
    out.u32(req_id);
    out.bytes(payload);
    proof {
        be_limits();
        be_low_bytes(5 + payload@.len(), 4);
        assert(out.buf@ =~= packet(typ, req_id, payload@));
    }
    out.buf
}

/// What is read at the end of `front` is what was written there: numbers.
pub proof fn number_round_trip(front: Seq<u8>, v: nat, n: nat, back: Seq<u8>)
    requires
        v < be_limit(n),
    ensures
        has_bytes(front + be(v, n) + back, front.len() as int, n as int),
        number_at(front + be(v, n) + back, front.len() as int, n as int) == v,
{
    be_round_trip(v, n);
    let s = front + be(v, n) + back;
    assert(s.subrange(front.len() as int, (front.len() + n) as int) =~= be(v, n));
}

/// What is read at the end of `front` is what was written there: strings
/// whose length fits in the prefix.
pub proof fn string_round_trip(front: Seq<u8>, text: Seq<u8>, back: Seq<u8>)
    requires
        text.len() < 0x1_0000_0000,
    ensures
        has_string(front + wire_string(text) + back, front.len() as int),
        string_at(front + wire_string(text) + back, front.len() as int) == text,
        string_end(front + wire_string(text) + back, front.len() as int) == front.len() + 4
            + text.len(),
{
    be_limits();
    be_round_trip(text.len(), 4);
    let s = front + wire_string(text) + back;
    assert(s =~= front + be(text.len(), 4) + (text + back));
    number_round_trip(front, text.len(), 4, text + back);
    assert(s.subrange(front.len() + 4int, front.len() + 4int + text.len()) =~= text);
}

/// A framed packet carries its type, request number and payload, and starts with
/// the number of bytes that follow where that fits in its length word.
pub proof fn packet_round_trip(typ: u8, req_id: u32, payload: Seq<u8>)
    ensures
        packet(typ, req_id, payload).len() == payload.len() + 9,
        payload.len() + 5 < 0x1_0000_0000 ==> number_at(packet(typ, req_id, payload), 0, 4)
            == packet(typ, req_id, payload).len() - 4,
        packet(typ, req_id, payload)[4] == typ,
        number_at(packet(typ, req_id, payload), 5, 4) == req_id,
        packet(typ, req_id, payload).skip(9) == payload,
{
    be_limits();
    let p = packet(typ, req_id, payload);
    be_round_trip(5 + payload.len(), 4);
    be_round_trip(req_id as nat, 4);
    let head = be(5 + payload.len(), 4) + seq![typ];
    if payload.len() + 5 < 0x1_0000_0000 {
        number_round_trip(
            Seq::empty(),
            5 + payload.len(),
            4,
            seq![typ] + be(req_id as nat, 4) + payload,
        );
    }
    assert(p =~= Seq::<u8>::empty() + be(5 + payload.len(), 4) + (seq![typ] + be(req_id as nat, 4)
        + payload));
    number_round_trip(head, req_id as nat, 4, payload);
    assert(p =~= head + be(req_id as nat, 4) + payload);
    assert(p.skip(9) =~= payload);
}

/// Attributes read the same wherever they stand.
pub proof fn attrs_stand_anywhere(front: Seq<u8>, attrs: Seq<u8>)
    requires
        has_attrs(attrs, 0),
    ensures
        has_attrs(front + attrs, front.len() as int),
        attrs_at(front + attrs, front.len() as int) == attrs_at(attrs, 0),
        attrs_end(front + attrs, front.len() as int) == front.len() + attrs_end(attrs, 0),
{
    let s = front + attrs;
    let k = front.len() as int;
    let flags = number_at(attrs, 0, 4) as u32;
    assert(s.subrange(k, k + 4) =~= attrs.subrange(0, 4));
    let perm = attrs_permissions_pos(flags, 0);
    let times = attrs_times_pos(flags, 0);
    if flags & ATTR_SIZE != 0 {
        assert(s.subrange(k + 4, k + 12) =~= attrs.subrange(4, 12));
    }
    if flags & ATTR_PERMISSIONS != 0 {
        assert(s.subrange(k + perm, k + perm + 4) =~= attrs.subrange(perm, perm + 4));
    }
    if flags & ATTR_ACMODTIME != 0 {
        assert(s.subrange(k + times, k + times + 4) =~= attrs.subrange(times, times + 4));
        assert(s.subrange(k + times + 4, k + times + 8) =~= attrs.subrange(times + 4, times + 8));
    }
}

/// What of attributes is on the wire, by the flags that the protocol gives them:
/// the size, then the owner and the group, then the permissions, then the times.
pub open spec fn attrs_block(
    size: Option<u64>,
    owner: Option<(u32, u32)>,
    permissions: Option<u32>,
    times: Option<(u32, u32)>,
) -> Seq<u8> {
    let flags = attrs_flags(size is Some, owner is Some, permissions is Some, times is Some);
    be(flags, 4) + (match size {
        Some(n) => be(n as nat, 8),
        None => Seq::empty(),
    }) + (match owner {
        Some((u, g)) => be(u as nat, 4) + be(g as nat, 4),
        None => Seq::empty(),
    }) + (match permissions {
        Some(p) => be(p as nat, 4),
        None => Seq::empty(),
    }) + (match times {
        Some((a, m)) => be(a as nat, 4) + be(m as nat, 4),
        None => Seq::empty(),
    })
}

proof fn attrs_of_parts(f: u32, b1: Seq<u8>, b2: Seq<u8>, b3: Seq<u8>, b4: Seq<u8>)
    requires
        b1.len() == (if f & ATTR_SIZE != 0 { 8nat } else { 0 }),
        b2.len() == (if f & ATTR_UIDGID != 0 { 8nat } else { 0 }),
        b3.len() == (if f & ATTR_PERMISSIONS != 0 { 4nat } else { 0 }),
        b4.len() == (if f & ATTR_ACMODTIME != 0 { 8nat } else { 0 }),
    ensures
        ({
            let b = be(f as nat, 4) + b1 + b2 + b3 + b4;
            &&& has_attrs(b, 0)
            &&& attrs_end(b, 0) == b.len()
            &&& attrs_at(b, 0) == (Attrs {
                size: if f & ATTR_SIZE != 0 {
                    Some(be_value(b1) as u64)
                } else {
                    None
                },
                atime: if f & ATTR_ACMODTIME != 0 {
                    Some(be_value(b4.take(4)) as u64)
                } else {
                    None
                },
                mtime: if f & ATTR_ACMODTIME != 0 {
                    Some(be_value(b4.skip(4)) as u64)
                } else {
                    None
                },
                permissions: if f & ATTR_PERMISSIONS != 0 {
                    Some(be_value(b3) as u32)
                } else {
                    None
                },
            })
        }),
{
    let b = be(f as nat, 4) + b1 + b2 + b3 + b4;
    be_limits();
    be_round_trip(f as nat, 4);
    assert(b.subrange(0, 4) =~= be(f as nat, 4));
    let p = attrs_permissions_pos(f, 0);
    let t = attrs_times_pos(f, 0);
    assert(p == 4 + b1.len() + b2.len());
    assert(t == p + b3.len());
    if f & ATTR_SIZE != 0 {
        assert(b.subrange(4, 12) =~= b1);
    }
    if f & ATTR_PERMISSIONS != 0 {
        assert(b.subrange(p, p + 4) =~= b3);
    }
    if f & ATTR_ACMODTIME != 0 {
        assert(b.subrange(t, t + 4) =~= b4.take(4));
        assert(b.subrange(t + 4, t + 8) =~= b4.skip(4));
    }
}

/// The flags of attributes, by what is there.
pub open spec fn attrs_flags(size: bool, owner: bool, permissions: bool, times: bool) -> nat {
    (if size { 1nat } else { 0 }) + (if owner { 2nat } else { 0 }) + (if permissions { 4nat } else {
        0
    }) + (if times { 8nat } else { 0 })
}

proof fn attrs_flags_are_bits(size: bool, owner: bool, permissions: bool, times: bool)
    ensures
        attrs_flags(size, owner, permissions, times) < 16,
        ({
            let f = attrs_flags(size, owner, permissions, times) as u32;
            &&& f & ATTR_SIZE != 0 <==> size
            &&& f & ATTR_UIDGID != 0 <==> owner
            &&& f & ATTR_PERMISSIONS != 0 <==> permissions
            &&& f & ATTR_ACMODTIME != 0 <==> times
        }),
{
    let f = attrs_flags(size, owner, permissions, times) as u32;
    assert(f & 1 != 0 <==> f % 2 == 1) by (bit_vector);
    assert(f & 2 != 0 <==> (f / 2) % 2 == 1) by (bit_vector);
    assert(f & 4 != 0 <==> (f / 4) % 2 == 1) by (bit_vector);
    assert(f & 8 != 0 <==> (f / 8) % 2 == 1) by (bit_vector);
}

/// Attributes that a client sends, with any choice of fields, are read as they
/// were sent, and owner and group are passed over.
pub proof fn attrs_block_round_trip(
    size: Option<u64>,
    owner: Option<(u32, u32)>,
    permissions: Option<u32>,
    times: Option<(u32, u32)>,
)
    ensures
        ({
            let b = attrs_block(size, owner, permissions, times);
            &&& has_attrs(b, 0)
            &&& attrs_end(b, 0) == b.len()
            &&& attrs_at(b, 0).size == size
            &&& attrs_at(b, 0).permissions == permissions
            &&& times matches Some((a, m)) ==> attrs_at(b, 0).atime == Some(a as u64) && attrs_at(
                b,
                0,
            ).mtime == Some(m as u64)
            &&& times is None ==> attrs_at(b, 0).atime is None && attrs_at(b, 0).mtime is None
        }),
{
    be_limits();
    let e = Seq::<u8>::empty();
    let b1 = match size {
        Some(n) => be(n as nat, 8),
        None => e,
    };
    let b2 = match owner {
        Some((u, g)) => be(u as nat, 4) + be(g as nat, 4),
        None => e,
    };
    let b3 = match permissions {
        Some(p) => be(p as nat, 4),
        None => e,
    };
    let b4 = match times {
        Some((a, m)) => be(a as nat, 4) + be(m as nat, 4),
        None => e,
    };
    let f = attrs_flags(size is Some, owner is Some, permissions is Some, times is Some) as u32;
    attrs_flags_are_bits(size is Some, owner is Some, permissions is Some, times is Some);
    if let Some(n) = size {
        be_round_trip(n as nat, 8);
    }
    if let Some((u, g)) = owner {
        be_round_trip(u as nat, 4);
        be_round_trip(g as nat, 4);
    }
    if let Some(p) = permissions {
        be_round_trip(p as nat, 4);
    }
    if let Some((a, m)) = times {
        be_round_trip(a as nat, 4);
        be_round_trip(m as nat, 4);
        assert(b4.take(4) =~= be(a as nat, 4));
        assert(b4.skip(4) =~= be(m as nat, 4));
    }
    attrs_of_parts(f, b1, b2, b3, b4);
}

} // verus!
