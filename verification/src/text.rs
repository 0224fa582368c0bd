//! Text helpers: whitespace, words, concatenation, decimal numbers and line
//! endings, over the characters of a string.
use vstd::prelude::*;
use vstd::string::*;
use vstd::utf8::*;

verus! {

/// Characters with the Unicode `White_Space` property.
pub open spec fn white_space(c: char) -> bool {
    ||| '\u{9}' <= c <= '\u{d}'
    ||| c == ' '
    ||| c == '\u{85}'
    ||| c == '\u{a0}'
    ||| c == '\u{1680}'
    ||| '\u{2000}' <= c <= '\u{200a}'
    ||| c == '\u{2028}'
    ||| c == '\u{2029}'
    ||| c == '\u{202f}'
    ||| c == '\u{205f}'
    ||| c == '\u{3000}'
}

/// Whether `c` separates words.
pub fn is_white_space(c: char) -> (r: bool)
    ensures
        r == white_space(c),
{
    ('\u{9}' <= c && c <= '\u{d}') || c == ' ' || c == '\u{85}' || c == '\u{a0}' || c == '\u{1680}'
        || ('\u{2000}' <= c && c <= '\u{200a}') || c == '\u{2028}' || c == '\u{2029}'
        || c == '\u{202f}' || c == '\u{205f}' || c == '\u{3000}'
}

/// `String::push` appends the given character to the end of the string.
pub assume_specification[ String::push ](s: &mut String, c: char)
    ensures
        final(s)@ == old(s)@.push(c),
;

/// The characters of `s`, in order.
pub fn chars_of(s: &str) -> (r: Vec<char>)
    ensures
        r@ == s@,
{
    let mut out: Vec<char> = Vec::new();
    for c in it: s.chars()
        invariant
            it.seq() == s@,
            out@ == s@.take(it.index() as int),
    {
        out.push(c);
    }
    out
}

/// The string made of `chars[from..to]`.
pub fn string_of(chars: &[char], from: usize, to: usize) -> (r: String)
    requires
        from <= to <= chars@.len(),
    ensures
        r@ == chars@.subrange(from as int, to as int),
{
    let mut out = String::new();
    let mut i: usize = from;
    while i < to
        invariant
            from <= i <= to <= chars@.len(),
            out@ == chars@.subrange(from as int, i as int),
        decreases to - i,
    {
        out.push(chars[i]);
        i = i + 1;
        assert(out@ =~= chars@.subrange(from as int, i as int));
    }
    out
}

/// Whether two strings hold the same characters.
pub fn str_eq(a: &str, b: &str) -> (r: bool)
    ensures
        r == (a@ == b@),
{
    let x = chars_of(a);
    let y = chars_of(b);
    if x.len() != y.len() {
        return false;
    }
    let mut i: usize = 0;
    while i < x.len()
        invariant
            i <= x@.len(),
            x@ == a@,
            y@ == b@,
            x@.len() == y@.len(),
            forall|j: int| 0 <= j < i ==> x@[j] == y@[j],
        decreases x@.len() - i,
    {
        if x[i] != y[i] {
            return false;
        }
        i = i + 1;
    }
    assert(a@ =~= b@);
    true
}

/// Length of the longest prefix of `s` without white space.
pub open spec fn word_len(s: Seq<char>) -> nat
    decreases s.len(),
{
    if s.len() == 0 || white_space(s[0]) {
        0
    } else {
        1 + word_len(s.drop_first())
    }
}

/// The maximal runs of characters of `s` that are not white space, in order.
pub open spec fn words(s: Seq<char>) -> Seq<Seq<char>>
    decreases s.len(),
    via words_decreases
{
    if s.len() == 0 {
        Seq::empty()
    } else if white_space(s[0]) {
        words(s.drop_first())
    } else {
        seq![s.take(word_len(s) as int)] + words(s.skip(word_len(s) as int))
    }
}

#[via_fn]
proof fn words_decreases(s: Seq<char>) {
    if s.len() > 0 && !white_space(s[0]) {
        word_len_bounds(s);
    }
}

/// The first word ends inside `s`, holds no white space, and is not empty
/// where `s` starts with a character that is not white space.
pub proof fn word_len_bounds(s: Seq<char>)
    ensures
        word_len(s) <= s.len(),
        s.len() > 0 && !white_space(s[0]) ==> word_len(s) > 0,
        forall|i: int| 0 <= i < word_len(s) ==> !white_space(#[trigger] s[i]),
        word_len(s) < s.len() ==> white_space(s[word_len(s) as int]),
    decreases s.len(),
{
    if s.len() == 0 || white_space(s[0]) {
    } else {
        let t = s.drop_first();
        word_len_bounds(t);
        assert forall|i: int| 0 <= i < word_len(s) implies !white_space(#[trigger] s[i]) by {
            if i > 0 {
                assert(s[i] == t[i - 1]);
            }
        }
        if word_len(s) < s.len() {
            assert(s[word_len(s) as int] == t[word_len(t) as int]);
        }
    }
}

/// The characters of each string of `v`.
pub open spec fn texts(v: Seq<String>) -> Seq<Seq<char>> {
    Seq::new(v.len(), |i: int| v[i]@)
}

/// The characters of an optional string.
pub open spec fn opt_text(s: Option<String>) -> Option<Seq<char>> {
    match s {
        Some(t) => Some(t@),
        None => None,
    }
}

/// Splits `line` into words at white space.
pub fn split_words(line: &str) -> (r: Vec<String>)
    ensures
        texts(r@) == words(line@),
{
    let cs = chars_of(line);
    let mut out: Vec<String> = Vec::new();
    let mut i: usize = 0;
    assert(line@.skip(0) =~= line@);
    while i < cs.len()
        invariant
            i <= cs@.len(),
            cs@ == line@,
            texts(out@) + words(line@.skip(i as int)) == words(line@),
        decreases cs@.len() - i,
    {
        let ghost rest = line@.skip(i as int);
        if is_white_space(cs[i]) {
            i = i + 1;
            assert(line@.skip(i as int) =~= rest.drop_first());
        } else {
            let start: usize = i;
            proof {
                word_len_bounds(rest);
            }
            while i < cs.len() && !is_white_space(cs[i])
                invariant
                    start <= i <= cs@.len(),
                    cs@ == line@,
                    rest == line@.skip(start as int),
                    i - start <= word_len(rest) <= rest.len(),
                    forall|k: int| 0 <= k < word_len(rest) ==> !white_space(#[trigger] rest[k]),
                    word_len(rest) < rest.len() ==> white_space(rest[word_len(rest) as int]),
                decreases cs@.len() - i,
            {
                assert(rest[i - start] == cs@[i as int]);
                i = i + 1;
            }
            assert(i - start == word_len(rest)) by {
                if i - start < word_len(rest) {
                    assert(rest[i - start] == cs@[i as int]);
                }
            }
            let ghost before = texts(out@);
            out.push(string_of(cs.as_slice(), start, i));
            assert(line@.subrange(start as int, i as int) =~= rest.take(word_len(rest) as int));
            assert(line@.skip(i as int) =~= rest.skip(word_len(rest) as int));
            assert(texts(out@) =~= before.push(rest.take(word_len(rest) as int)));
            assert(texts(out@) + words(line@.skip(i as int)) =~= before + words(rest));
        }
    }
    assert(words(line@.skip(i as int)) =~= Seq::empty());
    assert(texts(out@) =~= words(line@));
    out
}

/// `s` without its leading white space.
pub open spec fn trim_start(s: Seq<char>) -> Seq<char>
    decreases s.len(),
{
    if s.len() > 0 && white_space(s[0]) {
        trim_start(s.drop_first())
    } else {
        s
    }
}

/// `s` without its trailing white space.
pub open spec fn trim_end(s: Seq<char>) -> Seq<char>
    decreases s.len(),
{
    if s.len() > 0 && white_space(s.last()) {
        trim_end(s.drop_last())
    } else {
        s
    }
}

/// `s` without its leading and trailing white space.
pub open spec fn trimmed(s: Seq<char>) -> Seq<char> {
    trim_end(trim_start(s))
}

/// Removes leading and trailing white space.
pub fn trim(s: &str) -> (r: String)
    ensures
        r@ == trimmed(s@),
{
    let cs = chars_of(s);
    let mut from: usize = 0;
    assert(s@.skip(0) =~= s@);
    while from < cs.len() && is_white_space(cs[from])
        invariant
            from <= cs@.len(),
            cs@ == s@,
            trim_start(s@.skip(from as int)) == trim_start(s@),
        decreases cs@.len() - from,
    {
        assert(s@.skip(from as int).drop_first() =~= s@.skip(from + 1));
        from = from + 1;
    }
    assert(trim_start(s@) == s@.skip(from as int));
    let mut to: usize = cs.len();
    assert(s@.subrange(from as int, to as int) =~= s@.skip(from as int));
    while to > from && is_white_space(cs[to - 1])
        invariant
            from <= to <= cs@.len(),
            cs@ == s@,
            trim_end(s@.subrange(from as int, to as int)) == trim_end(s@.skip(from as int)),
        decreases to - from,
    {
        assert(s@.subrange(from as int, to as int).drop_last() =~= s@.subrange(
            from as int,
            to - 1,
        ));
        to = to - 1;
    }
    string_of(cs.as_slice(), from, to)
}

proof fn words_push_white_space(s: Seq<char>, c: char)
    requires
        white_space(c),
    ensures
        words(s.push(c)) == words(s),
        word_len(s.push(c)) == word_len(s),
    decreases s.len(),
{
    let t = s.push(c);
    if s.len() == 0 {
        assert(t.drop_first() =~= s);
    } else {
        assert(t.drop_first() =~= s.drop_first().push(c));
        words_push_white_space(s.drop_first(), c);
        if !white_space(s[0]) {
            let n = word_len(s) as int;
            word_len_bounds(s);
            words_push_white_space(s.skip(n), c);
            assert(t.take(n) =~= s.take(n));
            assert(t.skip(n) =~= s.skip(n).push(c));
        }
    }
}

proof fn words_trim_end(s: Seq<char>)
    ensures
        words(trim_end(s)) == words(s),
    decreases s.len(),
{
    if s.len() > 0 && white_space(s.last()) {
        words_trim_end(s.drop_last());
        words_push_white_space(s.drop_last(), s.last());
        assert(s.drop_last().push(s.last()) =~= s);
    }
}

proof fn words_trim_start(s: Seq<char>)
    ensures
        words(trim_start(s)) == words(s),
    decreases s.len(),
{
    if s.len() > 0 && white_space(s[0]) {
        words_trim_start(s.drop_first());
    }
}

/// White space around a line does not change its words.
pub proof fn words_ignore_surrounding_space(s: Seq<char>)
    ensures
        words(trimmed(s)) == words(s),
{
    words_trim_start(s);
    words_trim_end(trim_start(s));
}

/// A word: at least one character, none of them white space.
pub open spec fn is_word(w: Seq<char>) -> bool {
    &&& w.len() > 0
    &&& forall|j: int| 0 <= j < w.len() ==> !white_space(#[trigger] w[j])
}

/// No word of a line is empty and none holds white space.
pub proof fn words_are_words(s: Seq<char>)
    ensures
        forall|i: int| 0 <= i < words(s).len() ==> is_word(#[trigger] words(s)[i]),
    decreases s.len(),
{
    if s.len() == 0 {
        assert(words(s).len() == 0);
    } else if white_space(s[0]) {
        words_are_words(s.drop_first());
        assert(words(s) == words(s.drop_first()));
    } else {
        let n = word_len(s) as int;
        word_len_bounds(s);
        words_are_words(s.skip(n));
        let rest = words(s.skip(n));
        assert(is_word(s.take(n)));
        assert(words(s) == seq![s.take(n)] + rest);
        assert forall|i: int| 0 <= i < words(s).len() implies is_word(#[trigger] words(s)[i]) by {
            if i > 0 {
                assert(words(s)[i] == rest[i - 1]);
            }
        }
    }
}

/// `a` followed by `b`.
pub fn cat(a: &str, b: &str) -> (r: String)
    ensures
        r@ == a@ + b@,
{
    let mut out = String::new();
    out.append(a);
    out.append(b);
    assert(out@ =~= a@ + b@);
    out
}

/// The parts, with `sep` between each two of them.
pub open spec fn joined(parts: Seq<Seq<char>>, sep: Seq<char>) -> Seq<char>
    decreases parts.len(),
{
    if parts.len() == 0 {
        Seq::empty()
    } else if parts.len() == 1 {
        parts[0]
    } else {
        joined(parts.drop_last(), sep) + sep + parts.last()
    }
}

/// Joins the strings with `sep` between each two of them.
pub fn join(parts: &Vec<String>, sep: &str) -> (r: String)
    ensures
        r@ == joined(texts(parts@), sep@),
{
    let mut out = String::new();
    let mut i: usize = 0;
    let ghost all = texts(parts@);
    while i < parts.len()
        invariant
            i <= parts@.len(),
            all == texts(parts@),
            out@ == joined(all.take(i as int), sep@),
        decreases parts@.len() - i,
    {
        if i > 0 {
            out.append(sep);
        }
        out.append(parts[i].as_str());
        i = i + 1;
        proof {
            let t = all.take(i as int);
            assert(t.drop_last() =~= all.take(i - 1));
            assert(t.last() == parts@[i - 1]@);
            if i == 1 {
                assert(out@ =~= t[0]);
            }
        }
    }
    assert(all.take(i as int) =~= all);
    out
}

proof fn word_len_is(s: Seq<char>, n: int)
    requires
        0 <= n <= s.len(),
        forall|i: int| 0 <= i < n ==> !white_space(#[trigger] s[i]),
        n < s.len() ==> white_space(s[n]),
    ensures
        word_len(s) == n,
    decreases n,
{
    if n > 0 {
        assert(!white_space(s[0]));
        let t = s.drop_first();
        assert forall|i: int| 0 <= i < n - 1 implies !white_space(#[trigger] t[i]) by {
            assert(t[i] == s[i + 1]);
        }
        word_len_is(t, n - 1);
    }
}

proof fn words_of_appended_word(a: Seq<char>, w: Seq<char>)
    requires
        is_word(w),
    ensures
        words(a + seq![' '] + w) == words(a).push(w),
    decreases a.len(),
{
    let s = a + seq![' '] + w;
    if a.len() == 0 {
        assert(s.drop_first() =~= w);
        word_len_is(w, w.len() as int);
        assert(w.take(w.len() as int) =~= w);
        assert(w.skip(w.len() as int) =~= Seq::empty());
        assert(words(s) == words(w));
        assert(words(w) =~= seq![w] + words(Seq::empty()));
        assert(words(s) =~= words(a).push(w));
    } else if white_space(a[0]) {
        assert(s[0] == a[0]);
        assert(s.drop_first() =~= a.drop_first() + seq![' '] + w);
        words_of_appended_word(a.drop_first(), w);
    } else {
        let n = word_len(a) as int;
        word_len_bounds(a);
        assert(s[0] == a[0]);
        assert forall|i: int| 0 <= i < n implies !white_space(#[trigger] s[i]) by {
            assert(s[i] == a[i]);
        }
        assert(s[n] == (if n < a.len() {
            a[n]
        } else {
            ' '
        }));
        word_len_is(s, n);
        assert(s.take(n) =~= a.take(n));
        assert(s.skip(n) =~= a.skip(n) + seq![' '] + w);
        words_of_appended_word(a.skip(n), w);
        assert(words(s) =~= words(a).push(w));
    }
}

/// Words that are joined by spaces are the words of the line that they make.
pub proof fn joined_words_are_the_words(parts: Seq<Seq<char>>)
    requires
        forall|i: int| 0 <= i < parts.len() ==> is_word(#[trigger] parts[i]),
    ensures
        words(joined(parts, " "@)) == parts,
    decreases parts.len(),
{
    reveal_strlit(" ");
    assert(" "@ =~= seq![' ']);
    if parts.len() == 0 {
        assert(words(joined(parts, " "@)) =~= parts);
    } else if parts.len() == 1 {
        let w = parts[0];
        word_len_is(w, w.len() as int);
        assert(w.take(w.len() as int) =~= w);
        assert(w.skip(w.len() as int) =~= Seq::empty());
        assert(words(w) =~= seq![w] + words(Seq::empty()));
        assert(words(w) =~= parts);
    } else {
        let front = parts.drop_last();
        assert forall|i: int| 0 <= i < front.len() implies is_word(#[trigger] front[i]) by {
            assert(front[i] == parts[i]);
        }
        joined_words_are_the_words(front);
        assert(is_word(parts.last()));
        words_of_appended_word(joined(front, " "@), parts.last());
        assert(front.push(parts.last()) =~= parts);
    }
}

/// The character of a decimal digit.
pub open spec fn digit(d: nat) -> char {
    (48 + d) as char
}

/// The decimal notation of `n`, without leading zeros.
pub open spec fn decimal(n: nat) -> Seq<char>
    decreases n,
{
    if n < 10 {
        seq![digit(n)]
    } else {
        decimal(n / 10).push(digit(n % 10))
    }
}

/// The decimal notation of `n`.
pub fn decimal_text(n: u64) -> (r: String)
    ensures
        r@ == decimal(n as nat),
    decreases n,
{
    let d: u8 = (n % 10) as u8;
    let c: char = (48u8 + d) as char;
    if n < 10 {
        let mut out = String::new();
        out.push(c);
        assert(out@ =~= seq![digit(n as nat)]);
        out
    } else {
        let mut out = decimal_text(n / 10);
        out.push(c);
        out
    }
}

/// The value of a decimal notation.
pub open spec fn decimal_value(s: Seq<char>) -> nat
    decreases s.len(),
{
    if s.len() == 0 {
        0
    } else {
        10 * decimal_value(s.drop_last()) + (s.last() as int - 48) as nat
    }
}

proof fn decimal_value_of_decimal(n: nat)
    ensures
        decimal_value(decimal(n)) == n,
    decreases n,
{
    if n < 10 {
        assert(decimal(n).drop_last() =~= Seq::empty());
        assert(decimal_value(Seq::<char>::empty()) == 0);
    } else {
        decimal_value_of_decimal(n / 10);
        assert(decimal(n).drop_last() =~= decimal(n / 10));
    }
}

/// Two numbers with the same decimal notation are equal.
pub proof fn decimal_is_injective(a: nat, b: nat)
    requires
        decimal(a) == decimal(b),
    ensures
        a == b,
{
    decimal_value_of_decimal(a);
    decimal_value_of_decimal(b);
}

/// `s` as a terminal shows it: each line ending, `\r\n` or a bare `\n`, is `\r\n`.
pub open spec fn terminal_text(s: Seq<char>) -> Seq<char>
    decreases s.len(),
{
    if s.len() == 0 {
        Seq::empty()
    } else if s.len() >= 2 && s[0] == '\r' && s[1] == '\n' {
        seq!['\r', '\n'] + terminal_text(s.skip(2))
    } else if s[0] == '\n' {
        seq!['\r', '\n'] + terminal_text(s.drop_first())
    } else {
        seq![s[0]] + terminal_text(s.drop_first())
    }
}

/// Normalizes line endings to `\r\n`.
pub fn normalize_newlines(s: &str) -> (r: String)
    ensures
        r@ == terminal_text(s@),
{
    let cs = chars_of(s);
    let mut out = String::new();
    let mut i: usize = 0;
    assert(s@.skip(0) =~= s@);
    assert(out@ + terminal_text(s@.skip(0)) =~= terminal_text(s@));
    while i < cs.len()
        invariant
            i <= cs@.len(),
            cs@ == s@,
            out@ + terminal_text(s@.skip(i as int)) == terminal_text(s@),
        decreases cs@.len() - i,
    {
        let ghost rest = s@.skip(i as int);
        let ghost before = out@;
        if i + 1 < cs.len() && cs[i] == '\r' && cs[i + 1] == '\n' {
            out.push('\r');
            out.push('\n');
            i = i + 2;
            assert(s@.skip(i as int) =~= rest.skip(2));
        } else if cs[i] == '\n' {
            out.push('\r');
            out.push('\n');
            i = i + 1;
            assert(s@.skip(i as int) =~= rest.drop_first());
        } else {
            out.push(cs[i]);
            i = i + 1;
            assert(s@.skip(i as int) =~= rest.drop_first());
        }
        assert(out@ + terminal_text(s@.skip(i as int)) =~= before + terminal_text(rest));
    }
    assert(s@.skip(i as int) =~= Seq::empty());
    assert(out@ =~= terminal_text(s@));
    out
}

/// In terminal text every `\n` follows a `\r`.
pub proof fn terminal_text_has_no_bare_newline(s: Seq<char>)
    ensures
        terminal_text(s).len() > 0 ==> terminal_text(s)[0] != '\n',
        forall|i: int|
            0 < i < terminal_text(s).len() && #[trigger] terminal_text(s)[i] == '\n'
                ==> terminal_text(s)[i - 1] == '\r',
    decreases s.len(),
{
    if s.len() > 0 {
        let k: int = if s.len() >= 2 && s[0] == '\r' && s[1] == '\n' {
            2
        } else {
            1
        };
        let rest = terminal_text(s.skip(k));
        terminal_text_has_no_bare_newline(s.skip(k));
        let t = terminal_text(s);
        assert(s.skip(1) =~= s.drop_first());
        let head = t.len() - rest.len();
        assert(t.skip(head) =~= rest);
        assert forall|i: int| 0 < i < t.len() && #[trigger] t[i] == '\n' implies t[i - 1]
            == '\r' by {
            if i >= head {
                assert(t[i] == rest[i - head]);
                if i > head {
                    assert(t[i - 1] == rest[i - 1 - head]);
                }
            }
        }
    }
}

/// Normalizing line endings twice is the same as once.
pub proof fn terminal_text_is_idempotent(s: Seq<char>)
    ensures
        terminal_text(terminal_text(s)) == terminal_text(s),
    decreases s.len(),
{
    let t = terminal_text(s);
    if s.len() > 0 {
        let k: int = if s.len() >= 2 && s[0] == '\r' && s[1] == '\n' {
            2
        } else {
            1
        };
        assert(s.skip(1) =~= s.drop_first());
        let rest = terminal_text(s.skip(k));
        terminal_text_is_idempotent(s.skip(k));
        terminal_text_has_no_bare_newline(s.skip(k));
        if k == 2 || s[0] == '\n' {
            assert(t.skip(2) =~= rest);
        } else {
            assert(t.drop_first() =~= rest);
        }
    }
}

/// The text of `bytes`, with U+FFFD in place of what is not UTF-8.
pub uninterp spec fn lossy_text(bytes: Seq<u8>) -> Seq<char>;

/// `String::from_utf8_lossy`: the text of `bytes`. Bytes that are valid UTF-8
/// give the characters that they encode. For other bytes the text is a
/// function of the bytes, which is named and not spelled out.
#[verifier::external_body]
pub(crate) fn from_utf8_lossy(bytes: &[u8]) -> (r: String)
    ensures
        r@ == lossy_text(bytes@),
        valid_utf8(bytes@) ==> r@ == decode_utf8(bytes@),
{
    String::from_utf8_lossy(bytes).into_owned()
}

/// The characters of ASCII bytes.
pub open spec fn ascii_chars(bytes: Seq<u8>) -> Seq<char> {
    Seq::new(bytes.len(), |i: int| bytes[i] as char)
}

/// The string whose characters are the given bytes.
pub fn ascii_text(bytes: &[u8]) -> (r: String)
    ensures
        r@ == ascii_chars(bytes@),
{
    let mut out = String::new();
    let mut i: usize = 0;
    while i < bytes.len()
        invariant
            i <= bytes@.len(),
            out@ == ascii_chars(bytes@.take(i as int)),
        decreases bytes@.len() - i,
    {
        out.push(bytes[i] as char);
        i = i + 1;
        assert(out@ =~= ascii_chars(bytes@.take(i as int)));
    }
    assert(bytes@.take(i as int) =~= bytes@);
    out
}

/// The characters of `s` that are not white space, in order.
pub open spec fn visible(s: Seq<char>) -> Seq<char>
    decreases s.len(),
{
    if s.len() == 0 {
        Seq::empty()
    } else if white_space(s[0]) {
        visible(s.drop_first())
    } else {
        seq![s[0]] + visible(s.drop_first())
    }
}

/// The parts, one after the other.
pub open spec fn glued(parts: Seq<Seq<char>>) -> Seq<char>
    decreases parts.len(),
{
    if parts.len() == 0 {
        Seq::empty()
    } else {
        parts[0] + glued(parts.drop_first())
    }
}

proof fn visible_splits(s: Seq<char>, n: int)
    requires
        0 <= n <= s.len(),
        forall|i: int| 0 <= i < n ==> !white_space(#[trigger] s[i]),
    ensures
        visible(s) == s.take(n) + visible(s.skip(n)),
    decreases n,
{
    if n == 0 {
        assert(s.skip(0) =~= s);
        assert(s.take(0) + visible(s) =~= visible(s));
    } else {
        let t = s.drop_first();
        assert(!white_space(s[0]));
        assert forall|i: int| 0 <= i < n - 1 implies !white_space(#[trigger] t[i]) by {
            assert(t[i] == s[i + 1]);
        }
        visible_splits(t, n - 1);
        assert(t.skip(n - 1) =~= s.skip(n));
        assert(seq![s[0]] + (t.take(n - 1) + visible(s.skip(n))) =~= s.take(n) + visible(s.skip(n)));
    }
}

/// The words of a line hold its characters that are not white space, all of them
/// and in order.
pub proof fn words_lose_nothing(s: Seq<char>)
    ensures
        glued(words(s)) == visible(s),
    decreases s.len(),
{
    if s.len() == 0 {
        assert(words(s) =~= Seq::empty());
    } else if white_space(s[0]) {
        words_lose_nothing(s.drop_first());
    } else {
        let n = word_len(s) as int;
        word_len_bounds(s);
        words_lose_nothing(s.skip(n));
        visible_splits(s, n);
        assert(words(s).drop_first() =~= words(s.skip(n)));
        assert(words(s)[0] == s.take(n));
    }
}

/// All characters are white space.
pub open spec fn all_white(s: Seq<char>) -> bool {
    forall|i: int| 0 <= i < s.len() ==> white_space(#[trigger] s[i])
}

proof fn trim_start_takes_white_space(s: Seq<char>) -> (k: int)
    ensures
        0 <= k <= s.len(),
        trim_start(s) == s.skip(k),
        all_white(s.take(k)),
        trim_start(s).len() > 0 ==> !white_space(trim_start(s)[0]),
    decreases s.len(),
{
    if s.len() > 0 && white_space(s[0]) {
        let k = trim_start_takes_white_space(s.drop_first()) + 1;
        assert(s.drop_first().skip(k - 1) =~= s.skip(k));
        assert forall|i: int| 0 <= i < k implies white_space(#[trigger] s.take(k)[i]) by {
            if i > 0 {
                assert(s.take(k)[i] == s.drop_first().take(k - 1)[i - 1]);
            }
        }
        k
    } else {
        assert(s.skip(0) =~= s);
        0
    }
}

proof fn trim_end_takes_white_space(s: Seq<char>) -> (k: int)
    ensures
        0 <= k <= s.len(),
        trim_end(s) == s.take(k),
        all_white(s.skip(k)),
        trim_end(s).len() > 0 ==> !white_space(trim_end(s).last()),
    decreases s.len(),
{
    if s.len() > 0 && white_space(s.last()) {
        let t = s.drop_last();
        let k = trim_end_takes_white_space(t);
        assert(t.take(k) =~= s.take(k));
        assert forall|i: int| 0 <= i < s.skip(k).len() implies white_space(
            #[trigger] s.skip(k)[i],
        ) by {
            if i < t.len() - k {
                assert(s.skip(k)[i] == t.skip(k)[i]);
            }
        }
        k
    } else {
        assert(s.take(s.len() as int) =~= s);
        s.len() as int
    }
}

/// What trimming takes away is white space at both ends, and nothing else: the
/// rest stands as it was, and no white space is left at its ends.
pub proof fn trimming_takes_white_space_only(s: Seq<char>) -> (r: (Seq<char>, Seq<char>))
    ensures
        s == r.0 + trimmed(s) + r.1,
        all_white(r.0),
        all_white(r.1),
        trimmed(s).len() > 0 ==> !white_space(trimmed(s)[0]) && !white_space(trimmed(s).last()),
{
    let k = trim_start_takes_white_space(s);
    let t = s.skip(k);
    let n = trim_end_takes_white_space(t);
    assert(s =~= s.take(k) + t.take(n) + t.skip(n));
    (s.take(k), t.skip(n))
}

/// A text that begins and ends with no white space is its own trimmed form.
pub proof fn trimmed_text_stays(s: Seq<char>)
    requires
        s.len() > 0 ==> !white_space(s[0]) && !white_space(s.last()),
    ensures
        trimmed(s) == s,
{
}

/// Where the first `\n` stands; the length where there is none.
pub open spec fn line_len(s: Seq<char>) -> nat
    decreases s.len(),
{
    if s.len() == 0 || s[0] == '\n' {
        0
    } else {
        1 + line_len(s.drop_first())
    }
}

/// The lines of a text: what stands between its `\n`s.
pub open spec fn lines_of(s: Seq<char>) -> Seq<Seq<char>>
    decreases s.len(),
{
    let k = line_len(s) as int;
    if k >= s.len() {
        seq![s]
    } else {
        seq![s.take(k)] + lines_of(s.skip(k + 1))
    }
}

/// No character is a `\n`.
pub open spec fn one_line(s: Seq<char>) -> bool {
    forall|i: int| 0 <= i < s.len() ==> #[trigger] s[i] != '\n'
}

proof fn line_len_bounds(s: Seq<char>)
    ensures
        line_len(s) <= s.len(),
        forall|i: int| 0 <= i < line_len(s) ==> #[trigger] s[i] != '\n',
        line_len(s) < s.len() ==> s[line_len(s) as int] == '\n',
    decreases s.len(),
{
    if s.len() > 0 && s[0] != '\n' {
        let t = s.drop_first();
        line_len_bounds(t);
        assert forall|i: int| 0 <= i < line_len(s) implies #[trigger] s[i] != '\n' by {
            if i > 0 {
                assert(s[i] == t[i - 1]);
            }
        }
    }
}

proof fn line_len_is(s: Seq<char>, n: int)
    requires
        0 <= n <= s.len(),
        forall|i: int| 0 <= i < n ==> #[trigger] s[i] != '\n',
        n < s.len() ==> s[n] == '\n',
    ensures
        line_len(s) == n,
{
    line_len_bounds(s);
}

proof fn lines_of_appended_line(a: Seq<char>, p: Seq<char>)
    requires
        one_line(p),
    ensures
        lines_of(a + seq!['\n'] + p) == lines_of(a).push(p),
    decreases a.len(),
{
    let s = a + seq!['\n'] + p;
    let n = line_len(a) as int;
    line_len_bounds(a);
    assert forall|i: int| 0 <= i < n implies #[trigger] s[i] != '\n' by {
        assert(s[i] == a[i]);
    }
    assert(s[n] == '\n');
    line_len_is(s, n);
    assert(s.take(n) =~= a.take(n));
    if n >= a.len() {
        assert(s.skip(n + 1) =~= p);
        assert(a.take(n) =~= a);
        line_len_is(p, p.len() as int);
        assert(lines_of(p) == seq![p]);
        assert(lines_of(a) == seq![a]);
        assert(lines_of(s) == seq![a] + lines_of(p));
        assert(lines_of(s) =~= lines_of(a).push(p));
    } else {
        assert(s.skip(n + 1) =~= a.skip(n + 1) + seq!['\n'] + p);
        lines_of_appended_line(a.skip(n + 1), p);
        assert(lines_of(s) =~= lines_of(a).push(p));
    }
}

/// Lines that are joined by `\n` are the lines of the text that they make.
pub proof fn joined_lines_are_the_lines(parts: Seq<Seq<char>>)
    requires
        parts.len() > 0,
        forall|i: int| 0 <= i < parts.len() ==> one_line(#[trigger] parts[i]),
    ensures
        lines_of(joined(parts, "\n"@)) == parts,
    decreases parts.len(),
{
    reveal_strlit("\n");
    assert("\n"@ =~= seq!['\n']);
    assert(one_line(parts.last()));
    if parts.len() == 1 {
        line_len_is(parts[0], parts[0].len() as int);
        assert(lines_of(parts[0]) =~= parts);
    } else {
        let front = parts.drop_last();
        assert forall|i: int| 0 <= i < front.len() implies one_line(#[trigger] front[i]) by {
            assert(front[i] == parts[i]);
        }
        joined_lines_are_the_lines(front);
        lines_of_appended_line(joined(front, "\n"@), parts.last());
        assert(front.push(parts.last()) =~= parts);
    }
}

/// The decimal notation of a number reads as that number, in decimal digits
/// alone, and begins with a zero for zero only.
pub proof fn decimal_reads_as_the_number(n: nat)
    ensures
        decimal_value(decimal(n)) == n,
        decimal(n).len() > 0,
        forall|i: int| 0 <= i < decimal(n).len() ==> '0' <= #[trigger] decimal(n)[i] <= '9',
        decimal(n)[0] == '0' ==> n == 0,
    decreases n,
{
    decimal_value_of_decimal(n);
    if n >= 10 {
        decimal_reads_as_the_number(n / 10);
        assert(decimal(n)[0] == decimal(n / 10)[0]);
    }
}

/// Text on one line is shown as it is.
pub proof fn one_line_is_shown_as_it_is(s: Seq<char>)
    requires
        one_line(s),
    ensures
        terminal_text(s) == s,
    decreases s.len(),
{
    if s.len() > 0 {
        assert(s[0] != '\n');
        if s.len() >= 2 {
            assert(s[1] != '\n');
        }
        let t = s.drop_first();
        assert forall|i: int| 0 <= i < t.len() implies #[trigger] t[i] != '\n' by {
            assert(t[i] == s[i + 1]);
        }
        one_line_is_shown_as_it_is(t);
        assert(seq![s[0]] + t =~= s);
    } else {
        assert(terminal_text(s) =~= s);
    }
}

/// A line is shown as it is, with `\r\n` behind it, whether it ends in `\n` or in
/// `\r\n`, and then what follows it is shown.
pub proof fn lines_are_shown_one_by_one(line: Seq<char>, rest: Seq<char>)
    requires
        one_line(line),
        line.len() > 0 ==> line.last() != '\r',
    ensures
        terminal_text(line + seq!['\n'] + rest) == line + seq!['\r', '\n'] + terminal_text(rest),
        terminal_text(line + seq!['\r', '\n'] + rest) == line + seq!['\r', '\n'] + terminal_text(
            rest,
        ),
    decreases line.len(),
{
    let a = line + seq!['\n'] + rest;
    let b = line + seq!['\r', '\n'] + rest;
    if line.len() == 0 {
        assert(a.drop_first() =~= rest);
        assert(b.skip(2) =~= rest);
        assert(line + seq!['\r', '\n'] + terminal_text(rest) =~= seq!['\r', '\n']
            + terminal_text(rest));
    } else {
        let t = line.drop_first();
        assert(line[0] != '\n');
        assert forall|i: int| 0 <= i < t.len() implies #[trigger] t[i] != '\n' by {
            assert(t[i] == line[i + 1]);
        }
        if t.len() > 0 {
            assert(line[1] != '\n');
            assert(t.last() == line.last());
        }
        lines_are_shown_one_by_one(t, rest);
        assert(a.drop_first() =~= t + seq!['\n'] + rest);
        assert(b.drop_first() =~= t + seq!['\r', '\n'] + rest);
        assert(seq![line[0]] + (t + seq!['\r', '\n'] + terminal_text(rest)) =~= line
            + seq!['\r', '\n'] + terminal_text(rest));
    }
}

/// The text of ASCII bytes has those bytes as its encoding.
pub proof fn ascii_text_keeps_the_bytes(bytes: Seq<u8>)
    requires
        forall|i: int| 0 <= i < bytes.len() ==> #[trigger] bytes[i] < 128,
    ensures
        encode_utf8(ascii_chars(bytes)) == bytes,
{
    let t = ascii_chars(bytes);
    assert(is_ascii_chars(t));
    is_ascii_chars_encode_utf8(t);
    assert forall|i: int| 0 <= i < bytes.len() implies encode_utf8(t)[i] == bytes[i] by {
        assert(t[i] == bytes[i] as char);
    }
    assert(encode_utf8(t) =~= bytes);
}

/// The lines of two texts with a `\n` between them are the lines of the one and
/// then those of the other.
pub proof fn lines_of_two_texts(a: Seq<char>, b: Seq<char>)
    ensures
        lines_of(a + seq!['\n'] + b) == lines_of(a) + lines_of(b),
    decreases a.len(),
{
    let s = a + seq!['\n'] + b;
    let n = line_len(a) as int;
    line_len_bounds(a);
    assert forall|i: int| 0 <= i < n implies #[trigger] s[i] != '\n' by {
        assert(s[i] == a[i]);
    }
    assert(s[n] == '\n');
    line_len_is(s, n);
    assert(s.take(n) =~= a.take(n));
    if n >= a.len() {
        assert(s.skip(n + 1) =~= b);
        assert(a.take(n) =~= a);
        assert(lines_of(a) == seq![a]);
    } else {
        assert(s.skip(n + 1) =~= a.skip(n + 1) + seq!['\n'] + b);
        lines_of_two_texts(a.skip(n + 1), b);
        assert(lines_of(s) =~= lines_of(a) + lines_of(b));
    }
}

/// White space is what Unicode counts as such: of the control characters those
/// from the tab to the carriage return and the next-line character, and beyond
/// them the spaces and the two separators.
pub proof fn white_space_is_that_of_unicode(c: char)
    ensures
        white_space(c) <==> {
            let n = c as int;
            ||| 9 <= n <= 13
            ||| n == 32
            ||| n == 133
            ||| n == 160
            ||| n == 5760
            ||| 8192 <= n <= 8202
            ||| 8232 <= n <= 8233
            ||| n == 8239
            ||| n == 8287
            ||| n == 12288
        },
{
}

} // verus!
