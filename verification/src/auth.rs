//! Who may log in.
use vstd::prelude::*;
use vstd::string::*;
use crate::text::{is_word, joined, joined_words_are_the_words, split_words, texts, words};

verus! {

/// The public key, in the encoding of the SSH protocol, that a base64 text
/// stands for; none where it stands for no key.
pub uninterp spec fn public_key_form(text: Seq<char>) -> Option<Seq<u8>>;

/// The SHA-256 fingerprint of a public key in the encoding of the SSH protocol;
/// none where the bytes are no key.
pub uninterp spec fn fingerprint_form(key: Seq<u8>) -> Option<Seq<u8>>;

/// The contents of an optional list of bytes.
pub open spec fn opt_bytes(b: Option<Vec<u8>>) -> Option<Seq<u8>> {
    match b {
        Some(v) => Some(v@),
        None => None,
    }
}

/// `russh_keys::parse_public_key_base64`: reads the text and hands the key out
/// in the encoding of the SSH protocol. Which texts are keys is named and not
/// spelled out.
#[verifier::external_body]
fn parse_public_key_base64(text: &str) -> (r: Option<Vec<u8>>)
    ensures
        opt_bytes(r) == public_key_form(text@),
{
    match russh_keys::parse_public_key_base64(text) {
        Ok(key) => key.to_bytes().ok(),
        Err(_) => None,
    }
}

/// `russh_keys::PublicKey::fingerprint` with SHA-256, of the key that
/// `PublicKey::from_bytes` reads from the bytes. What it gives is named and not
/// spelled out.
#[verifier::external_body]
fn sha256_fingerprint(key: &[u8]) -> (r: Option<Vec<u8>>)
    ensures
        opt_bytes(r) == fingerprint_form(key@),
{
    match russh_keys::PublicKey::from_bytes(key) {
        Ok(k) => k.fingerprint(russh_keys::HashAlg::Sha256).sha256().map(|d| d.to_vec()),
        Err(_) => None,
    }
}

/// The word of an authorized-keys line that holds the key: the second one, or
/// the only one.
pub open spec fn key_word(line: Seq<char>) -> Option<Seq<char>> {
    let w = words(line);
    if w.len() == 0 {
        None
    } else if w.len() == 1 {
        Some(w[0])
    } else {
        Some(w[1])
    }
}

/// The public key of an authorized-keys line.
pub open spec fn line_key(line: Seq<char>) -> Option<Seq<u8>> {
    match key_word(line) {
        Some(token) => public_key_form(token),
        None => None,
    }
}

/// The fingerprint of the key of an authorized-keys line.
pub open spec fn line_fingerprint(line: Seq<char>) -> Option<Seq<u8>> {
    match line_key(line) {
        Some(key) => fingerprint_form(key),
        None => None,
    }
}

/// A fingerprint stands in a list of optional ones.
pub open spec fn listed(fingerprint: Seq<u8>, list: Seq<Option<Seq<u8>>>) -> bool {
    list.contains(Some(fingerprint))
}

/// A public key is permitted by the lines of an authorized-keys list: some line
/// holds a key with the same fingerprint.
pub open spec fn permitted(key: Seq<u8>, lines: Seq<Seq<char>>) -> bool {
    match fingerprint_form(key) {
        Some(fp) => listed(fp, Seq::new(lines.len(), |i: int| line_fingerprint(lines[i]))),
        None => false,
    }
}

/// The word of an authorized-keys line that holds the key.
pub fn key_token(line: &str) -> (r: Option<String>)
    ensures
        crate::text::opt_text(r) == key_word(line@),
{
    let mut w = split_words(line);
    if w.len() == 0 {
        None
    } else if w.len() == 1 {
        Some(w.swap_remove(0))
    } else {
        Some(w.swap_remove(1))
    }
}

/// Reads a line of an authorized-keys list.
fn parse_authorized_key(line: &str) -> (r: Option<Vec<u8>>)
    ensures
        opt_bytes(r) == line_key(line@),
{
    match key_token(line) {
        Some(token) => parse_public_key_base64(token.as_str()),
        None => None,
    }
}

fn bytes_eq(a: &Vec<u8>, b: &Vec<u8>) -> (r: bool)
    ensures
        r == (a@ == b@),
{
    if a.len() != b.len() {
        return false;
    }
    let mut i: usize = 0;
    while i < a.len()
        invariant
            i <= a@.len(),
            a@.len() == b@.len(),
            forall|j: int| 0 <= j < i ==> a@[j] == b@[j],
        decreases a@.len() - i,
    {
        if a[i] != b[i] {
            return false;
        }
        i = i + 1;
    }
    assert(a@ =~= b@);
    true
}

/// The contents of a list of optional fingerprints.
pub open spec fn fingerprint_views(list: Seq<Option<Vec<u8>>>) -> Seq<Option<Seq<u8>>> {
    Seq::new(list.len(), |i: int| opt_bytes(list[i]))
}

/// Looks a fingerprint up in a list of optional ones.
pub fn is_listed(fingerprint: &Vec<u8>, list: &Vec<Option<Vec<u8>>>) -> (r: bool)
    ensures
        r == listed(fingerprint@, fingerprint_views(list@)),
{
    let ghost all = fingerprint_views(list@);
    let mut i: usize = 0;
    while i < list.len()
        invariant
            i <= list@.len(),
            all == fingerprint_views(list@),
            forall|j: int| 0 <= j < i ==> #[trigger] all[j] != Some(fingerprint@),
        decreases list@.len() - i,
    {
        assert(all[i as int] == opt_bytes(list@[i as int]));
        if let Some(candidate) = &list[i] {
            if bytes_eq(candidate, fingerprint) {
                assert(all.contains(Some(fingerprint@)));
                return true;
            }
        }
        i = i + 1;
    }
    false
}

/// Whether a public key, in the encoding of the SSH protocol, is permitted to
/// log in. The lines are those of the server's configuration.
pub fn is_authorized_public_key(public_key: &[u8], config_keys: &Vec<String>) -> (r: bool)
    ensures
        r == permitted(public_key@, texts(config_keys@)),
{
    let fingerprint = match sha256_fingerprint(public_key) {
        Some(fp) => fp,
        None => {
            return false;
        },
    };
    let ghost lines = texts(config_keys@);
    let ghost all = Seq::new(lines.len(), |i: int| line_fingerprint(lines[i]));
    let mut list: Vec<Option<Vec<u8>>> = Vec::new();
    let mut i: usize = 0;
    while i < config_keys.len()
        invariant
            i <= config_keys@.len(),
            lines == texts(config_keys@),
            all == Seq::new(lines.len(), |j: int| line_fingerprint(lines[j])),
            fingerprint_views(list@) == all.take(i as int),
        decreases config_keys@.len() - i,
    {
        let ghost before = fingerprint_views(list@);
        let candidate = match parse_authorized_key(config_keys[i].as_str()) {
            Some(key) => sha256_fingerprint(key.as_slice()),
            None => None,
        };
        list.push(candidate);
        assert(fingerprint_views(list@) =~= before.push(line_fingerprint(lines[i as int])));
        i = i + 1;
        assert(fingerprint_views(list@) =~= all.take(i as int));
    }
    assert(all.take(i as int) =~= all);
    is_listed(&fingerprint, &list)
}

/// With no lines nobody is permitted.
pub proof fn empty_list_permits_nobody(key: Seq<u8>)
    ensures
        !permitted(key, Seq::empty()),
{
}

/// A line permits the key that it holds, whatever the other lines are.
pub proof fn line_permits_its_key(lines: Seq<Seq<char>>, i: int)
    requires
        0 <= i < lines.len(),
        line_fingerprint(lines[i]) is Some,
    ensures
        permitted(line_key(lines[i])->0, lines),
{
    let all = Seq::new(lines.len(), |j: int| line_fingerprint(lines[j]));
    assert(all[i] == line_fingerprint(lines[i]));
}

/// More lines permit more keys: none that was permitted is shut out, and every
/// new one is permitted by a line that was added.
pub proof fn added_lines_permit_more(key: Seq<u8>, a: Seq<Seq<char>>, b: Seq<Seq<char>>)
    ensures
        permitted(key, a + b) == (permitted(key, a) || permitted(key, b)),
{
    let fa = Seq::new(a.len(), |j: int| line_fingerprint(a[j]));
    let fb = Seq::new(b.len(), |j: int| line_fingerprint(b[j]));
    let fab = Seq::new((a + b).len(), |j: int| line_fingerprint((a + b)[j]));
    assert(fab =~= fa + fb);
    if let Some(fp) = fingerprint_form(key) {
        if fa.contains(Some(fp)) {
            let i = choose|i: int| 0 <= i < fa.len() && fa[i] == Some(fp);
            assert(fab[i] == Some(fp));
        }
        if fb.contains(Some(fp)) {
            let i = choose|i: int| 0 <= i < fb.len() && fb[i] == Some(fp);
            assert(fab[fa.len() + i] == Some(fp));
        }
        if fab.contains(Some(fp)) {
            let i = choose|i: int| 0 <= i < fab.len() && fab[i] == Some(fp);
            if i < fa.len() {
                assert(fa[i] == Some(fp));
            } else {
                assert(fb[i - fa.len()] == Some(fp));
            }
        }
    }
}

/// The key of a line stands in its second word, behind the algorithm and with or
/// without further words; a line of one word is the key itself. The fingerprint
/// of the line is that of the key which this word stands for.
pub proof fn key_stands_behind_the_algorithm(
    algorithm: Seq<char>,
    key: Seq<char>,
    comment: Seq<Seq<char>>,
)
    requires
        is_word(algorithm),
        is_word(key),
        forall|i: int| 0 <= i < comment.len() ==> is_word(#[trigger] comment[i]),
    ensures
        key_word(joined(seq![algorithm, key] + comment, " "@)) == Some(key),
        key_word(key) == Some(key),
        line_key(joined(seq![algorithm, key] + comment, " "@)) == public_key_form(key),
        line_key(key) == public_key_form(key),
        public_key_form(key) matches Some(k) ==> line_fingerprint(
            joined(seq![algorithm, key] + comment, " "@),
        ) == fingerprint_form(k) && line_fingerprint(key) == fingerprint_form(k),
{
    let w = seq![algorithm, key] + comment;
    assert forall|i: int| 0 <= i < w.len() implies is_word(#[trigger] w[i]) by {
        if i >= 2 {
            assert(w[i] == comment[i - 2]);
        }
    }
    joined_words_are_the_words(w);
    joined_words_are_the_words(seq![key]);
    assert(joined(seq![key], " "@) == key);
}

/// A listed key may log in: where a line is `<algorithm> <key>`, with or without a
/// comment, the key that `<key>` stands for is permitted, whatever the other
/// lines are.
pub proof fn listed_key_is_permitted(
    lines: Seq<Seq<char>>,
    i: int,
    algorithm: Seq<char>,
    key: Seq<char>,
    comment: Seq<Seq<char>>,
)
    requires
        0 <= i < lines.len(),
        lines[i] == joined(seq![algorithm, key] + comment, " "@),
        is_word(algorithm),
        is_word(key),
        forall|j: int| 0 <= j < comment.len() ==> is_word(#[trigger] comment[j]),
        public_key_form(key) is Some,
        fingerprint_form(public_key_form(key)->0) is Some,
    ensures
        permitted(public_key_form(key)->0, lines),
{
    key_stands_behind_the_algorithm(algorithm, key, comment);
    line_permits_its_key(lines, i);
}

/// A key is permitted by nothing but a line whose key has the same fingerprint,
/// and a key without a fingerprint is not permitted.
pub proof fn only_listed_keys_are_permitted(key: Seq<u8>, lines: Seq<Seq<char>>)
    ensures
        permitted(key, lines) <==> fingerprint_form(key) is Some && exists|i: int|
            0 <= i < lines.len() && line_key(#[trigger] lines[i]) is Some && fingerprint_form(
                line_key(lines[i])->0,
            ) == fingerprint_form(key),
{
    let all = Seq::new(lines.len(), |j: int| line_fingerprint(lines[j]));
    if let Some(fp) = fingerprint_form(key) {
        if all.contains(Some(fp)) {
            let i = choose|i: int| 0 <= i < all.len() && all[i] == Some(fp);
            assert(line_fingerprint(lines[i]) == Some(fp));
        }
        if exists|i: int|
            0 <= i < lines.len() && line_key(#[trigger] lines[i]) is Some && fingerprint_form(
                line_key(lines[i])->0,
            ) == fingerprint_form(key) {
            let i = choose|i: int|
                0 <= i < lines.len() && line_key(#[trigger] lines[i]) is Some && fingerprint_form(
                    line_key(lines[i])->0,
                ) == fingerprint_form(key);
            assert(all[i] == Some(fp));
        }
    }
}

} // verus!
