//! Character-level text operations used to build prompts, keys and reports.
//!
//! Strings are reasoned about through their character sequences (`s@`).
use vstd::prelude::*;
use vstd::string::StringSliceAdditionalSpecFns;

verus! {

/// The characters of a string, collected into a vector.
pub fn chars_of(s: &str) -> (res: Vec<char>)
    ensures
        res@ == s@,
{
    let mut res: Vec<char> = Vec::new();
    for c in it: s.chars()
        invariant
            res@ == it.seq().take(it.index() as int),
    {
        res.push(c);
    }
    res
}

/// `String::push`: appends one character at the end of the string.
#[verifier::external_body]
pub(crate) fn push_char(s: &mut String, c: char)
    ensures
        final(s)@ == old(s)@.push(c),
{
    s.push(c)
}

/// A string that holds exactly the given characters.
pub fn string_from_chars(cs: &Vec<char>) -> (res: String)
    ensures
        res@ == cs@,
{
    let mut res = String::new();
    let mut i: usize = 0;
    while i < cs.len()
        invariant
            i <= cs.len(),
            res@ == cs@.take(i as int),
        decreases cs.len() - i,
    {
        push_char(&mut res, cs[i]);
        i = i + 1;
        assert(res@ =~= cs@.take(i as int));
    }
    assert(cs@.take(cs.len() as int) =~= cs@);
    res
}

/// A fresh string holding the characters of `s`.
pub fn owned(s: &str) -> (res: String)
    ensures
        res@ == s@,
{
    s.to_string()
}

/// Appends `t` at the end of `s`.
pub fn append(s: &mut String, t: &str)
    ensures
        final(s)@ == old(s)@ + t@,
{
    s.append(t);
}

/// Whether two strings hold the same characters.
pub fn str_eq(a: &str, b: &str) -> (res: bool)
    ensures
        res == (a@ == b@),
{
    let x = owned(a);
    let y = owned(b);
    x == y
}

/// The number of bytes of the UTF-8 encoding of `s`.
pub open spec fn byte_len(s: Seq<char>) -> nat {
    vstd::utf8::encode_utf8(s).len()
}

/// The length in bytes of the string `s` as `str::len` reports it.
pub open spec fn byte_count(s: Seq<char>) -> usize {
    byte_len(s) as usize
}

/// The character of the decimal digit `d`.
pub open spec fn digit_char(d: nat) -> char {
    ((d + 48) as u32) as char
}

/// The decimal representation of `n`, without leading zeros ("0" for zero).
pub open spec fn dec(n: nat) -> Seq<char>
    decreases n,
{
    if n < 10 {
        seq![digit_char(n)]
    } else {
        dec(n / 10).push(digit_char(n % 10))
    }
}

/// Appends the decimal representation of `n`.
pub fn push_dec(s: &mut String, n: u64)
    ensures
        final(s)@ == old(s)@ + dec(n as nat),
    decreases n,
{
    if n >= 10 {
        push_dec(s, n / 10);
    }
    let d: u8 = (n % 10) as u8;
    let c: char = (d + 48) as char;
    assert(c == digit_char((n % 10) as nat));
    push_char(s, c);
    assert(s@ =~= old(s)@ + dec(n as nat));
}

/// The decimal representation of `n`.
pub fn dec_string(n: u64) -> (res: String)
    ensures
        res@ == dec(n as nat),
{
    let mut s = String::new();
    push_dec(&mut s, n);
    assert(s@ =~= dec(n as nat));
    s
}

/// The first `n` characters of `s` (all of `s` when it is shorter).
pub open spec fn prefix(s: Seq<char>, n: nat) -> Seq<char> {
    if n < s.len() {
        s.take(n as int)
    } else {
        s
    }
}

/// `s.chars().take(n).collect()`: the first `n` characters of `s`.
pub fn take_chars(s: &str, n: usize) -> (res: String)
    ensures
        res@ == prefix(s@, n as nat),
{
    let cs = chars_of(s);
    let mut out = String::new();
    let mut i: usize = 0;
    while i < cs.len() && i < n
        invariant
            i <= cs.len(),
            i <= n,
            cs@ == s@,
            out@ == cs@.take(i as int),
        decreases cs.len() - i,
    {
        push_char(&mut out, cs[i]);
        i = i + 1;
        assert(out@ =~= cs@.take(i as int));
    }
    assert(out@ =~= prefix(s@, n as nat));
    out
}

/// `char::is_whitespace`: the characters with the Unicode White_Space property.
pub open spec fn is_ws(c: char) -> bool {
    let u = c as u32;
    ||| 0x09 <= u <= 0x0d
    ||| u == 0x20
    ||| u == 0x85
    ||| u == 0xa0
    ||| u == 0x1680
    ||| 0x2000 <= u <= 0x200a
    ||| u == 0x2028
    ||| u == 0x2029
    ||| u == 0x202f
    ||| u == 0x205f
    ||| u == 0x3000
}

/// Whether `c` is a whitespace character.
pub fn is_whitespace(c: char) -> (res: bool)
    ensures
        res == is_ws(c),
{
    let u = c as u32;
    (0x09 <= u && u <= 0x0d) || u == 0x20 || u == 0x85 || u == 0xa0 || u == 0x1680 || (0x2000 <= u
        && u <= 0x200a) || u == 0x2028 || u == 0x2029 || u == 0x202f || u == 0x205f || u == 0x3000
}

/// The maximal runs of non-whitespace characters of `s`, in order
/// (what `str::split_whitespace` yields).
pub open spec fn words(s: Seq<char>) -> Seq<Seq<char>>
    decreases s.len(),
{
    if s.len() == 0 {
        seq![]
    } else {
        let w = words(s.drop_last());
        let c = s.last();
        if is_ws(c) {
            w
        } else if s.len() >= 2 && !is_ws(s[s.len() - 2]) {
            w.drop_last().push(w.last().push(c))
        } else {
            w.push(seq![c])
        }
    }
}

/// The character sequences of a vector of strings.
pub open spec fn string_views(v: Seq<String>) -> Seq<Seq<char>> {
    v.map_values(|x: String| x@)
}

/// `s.split_whitespace()`: the words of `s`.
pub fn split_ws(s: &str) -> (res: Vec<String>)
    ensures
        string_views(res@) == words(s@),
{
    let cs = chars_of(s);
    let mut done: Vec<String> = Vec::new();
    let mut cur = String::new();
    let mut in_word = false;
    let mut i: usize = 0;
    while i < cs.len()
        invariant
            i <= cs.len(),
            cs@ == s@,
            in_word == (i > 0 && !is_ws(cs@[i - 1])),
            words(cs@.take(i as int)) == string_views(done@) + (if in_word {
                seq![cur@]
            } else {
                seq![]
            }),
        decreases cs.len() - i,
    {
        let c = cs[i];
        let ghost before = cs@.take(i as int);
        assert(cs@.take(i + 1).drop_last() =~= before);
        if is_whitespace(c) {
            if in_word {
                let w = cur;
                cur = String::new();
                let ghost d0 = done@;
                done.push(w);
                assert(string_views(done@) =~= string_views(d0).push(w@)) by {
                    assert(done@ =~= d0.push(w));
                }
            }
            in_word = false;
        } else {
            if in_word {
                push_char(&mut cur, c);
            } else {
                cur = String::new();
                push_char(&mut cur, c);
                in_word = true;
            }
        }
        i = i + 1;
        let ghost after = cs@.take(i as int);
        assert(after.last() == c);
        assert(after.drop_last() =~= before);
        assert(words(after) =~= string_views(done@) + (if in_word {
            seq![cur@]
        } else {
            seq![]
        }));
    }
    if in_word {
        let w = cur;
        let ghost d0 = done@;
        done.push(w);
        assert(string_views(done@) =~= string_views(d0).push(w@)) by {
            assert(done@ =~= d0.push(w));
        }
    }
    assert(cs@.take(cs.len() as int) =~= s@);
    done
}

/// Whether `pat` occurs in `s` at character position `i`.
pub open spec fn occurs_at(s: Seq<char>, pat: Seq<char>, i: int) -> bool {
    0 <= i && i + pat.len() <= s.len() && s.subrange(i, i + pat.len()) == pat
}

/// Whether `pat` occurs somewhere in `s` (`str::contains`).
pub open spec fn contains_seq(s: Seq<char>, pat: Seq<char>) -> bool {
    exists|i: int| occurs_at(s, pat, i)
}

/// Whether `pat` occurs in `s` at character position `i` (executable form).
pub fn match_at(s: &Vec<char>, pat: &Vec<char>, i: usize) -> (res: bool)
    requires
        i + pat@.len() <= s@.len(),
    ensures
        res == occurs_at(s@, pat@, i as int),
{
    let mut j: usize = 0;
    while j < pat.len()
        invariant
            j <= pat@.len(),
            i + pat@.len() <= s@.len(),
            forall|k: int| 0 <= k < j ==> s@[i + k] == pat@[k],
        decreases pat.len() - j,
    {
        assert(i + j < s@.len());
        assert(s@.len() == s.len());
        let ij: usize = i + j;
        if s[ij] != pat[j] {
            assert(s@.subrange(i as int, i + pat@.len())[j as int] != pat@[j as int]);
            return false;
        }
        j = j + 1;
    }
    assert(s@.subrange(i as int, i + pat@.len()) =~= pat@);
    true
}

/// `s.contains(pat)`.
pub fn contains_str(s: &str, pat: &str) -> (res: bool)
    ensures
        res == contains_seq(s@, pat@),
{
    let sc = chars_of(s);
    let pc = chars_of(pat);
    if pc.len() > sc.len() {
        return false;
    }
    let last = sc.len() - pc.len();
    let mut i: usize = 0;
    loop
        invariant
            sc@ == s@,
            pc@ == pat@,
            last == sc@.len() - pc@.len(),
            i <= last,
            forall|k: int| 0 <= k < i ==> !occurs_at(s@, pat@, k),
        ensures
            forall|k: int| 0 <= k <= last ==> !occurs_at(s@, pat@, k),
        decreases last - i,
    {
        if match_at(&sc, &pc, i) {
            return true;
        }
        if i == last {
            break;
        }
        i = i + 1;
    }
    assert forall|k: int| !occurs_at(s@, pat@, k) by {
        if 0 <= k && k + pat@.len() <= s@.len() {
            assert(k <= last);
        }
    }
    false
}

/// The words of `s` joined by `sep`.
pub open spec fn joined(parts: Seq<Seq<char>>, sep: Seq<char>) -> Seq<char>
    decreases parts.len(),
{
    if parts.len() == 0 {
        seq![]
    } else if parts.len() == 1 {
        parts[0]
    } else {
        joined(parts.drop_last(), sep) + sep + parts.last()
    }
}

/// `parts.join(sep)`.
pub fn join(parts: &Vec<String>, sep: &str) -> (res: String)
    ensures
        res@ == joined(string_views(parts@), sep@),
{
    let mut res = String::new();
    let mut i: usize = 0;
    while i < parts.len()
        invariant
            i <= parts@.len(),
            res@ == joined(string_views(parts@.take(i as int)), sep@),
        decreases parts.len() - i,
    {
        let ghost prev = string_views(parts@.take(i as int));
        if i > 0 {
            res.append(sep);
        }
        res.append(parts[i].as_str());
        i = i + 1;
        let ghost now = string_views(parts@.take(i as int));
        assert(now.drop_last() =~= prev);
        assert(now.last() == parts@[i - 1]@);
        assert(res@ =~= joined(now, sep@));
    }
    assert(parts@.take(parts.len() as int) =~= parts@);
    res
}

/// What `str::to_lowercase` returns for a string: the Unicode lowercase mapping
/// that std applies character by character (with its context rule for final sigma).
pub uninterp spec fn lowercase(s: Seq<char>) -> Seq<char>;

/// `str::to_lowercase`: the lowercase form of `s`, as std's Unicode tables define it.
#[verifier::external_body]
pub(crate) fn to_lowercase(s: &str) -> (res: String)
    ensures
        res@ == lowercase(s@),
{
    s.to_lowercase()
}

/// Whether `text` can be cut after `n` bytes: it is not longer, or byte `n` starts a
/// character.
pub open spec fn cut_fits(text: Seq<char>, n: nat) -> bool {
    byte_len(text) <= n || vstd::utf8::is_char_boundary(vstd::utf8::encode_utf8(text), n as int)
}

/// The text of the first `n` bytes of `text` (all of it where it is not longer), as
/// `&text[..n.min(text.len())]` gives it.
pub open spec fn byte_prefix(text: Seq<char>, n: nat) -> Seq<char> {
    if byte_len(text) > n {
        vstd::utf8::decode_utf8(vstd::utf8::encode_utf8(text).subrange(0, n as int))
    } else {
        text
    }
}

/// The length of `s` in bytes.
pub fn bytes_of(s: &str) -> (res: usize)
    ensures
        res as nat == byte_len(s@),
{
    s.as_bytes().len()
}

/// Whether `s` can be cut after `n` bytes.
pub fn cut_ok(s: &str, n: usize) -> (res: bool)
    ensures
        res == cut_fits(s@, n as nat),
{
    bytes_of(s) <= n || s.is_char_boundary(n)
}

/// The first `n` bytes of `s` (all of it where it is not longer).
pub fn cut_at_bytes(s: &str, n: usize) -> (res: String)
    requires
        cut_fits(s@, n as nat),
    ensures
        res@ == byte_prefix(s@, n as nat),
{
    if bytes_of(s) > n {
        let (head, _) = s.split_at(n);
        proof {
            vstd::utf8::encode_utf8_decode_utf8(head@);
            assert(head.spec_bytes() =~= vstd::utf8::encode_utf8(s@).subrange(0, n as int));
        }
        owned(head)
    } else {
        owned(s)
    }
}

// ── Facts about words ──

/// A non-empty text without whitespace is a single word.
pub proof fn lemma_words_single(w: Seq<char>)
    requires
        w.len() > 0,
        forall|i: int| 0 <= i < w.len() ==> !is_ws(#[trigger] w[i]),
    ensures
        words(w) == seq![w],
    decreases w.len(),
{
    if w.len() == 1 {
        assert(w.drop_last() =~= Seq::<char>::empty());
        assert(words(w.drop_last()) =~= Seq::<Seq<char>>::empty());
        assert(seq![w.last()] =~= w);
        assert(words(w) =~= seq![seq![w.last()]]);
    } else {
        let d = w.drop_last();
        assert forall|i: int| 0 <= i < d.len() implies !is_ws(#[trigger] d[i]) by {
            assert(d[i] == w[i]);
        }
        lemma_words_single(d);
        assert(!is_ws(w[w.len() - 2]));
        assert(d.push(w.last()) =~= w);
    }
}

/// A text that ends with a non-whitespace character has a word.
pub proof fn lemma_words_nonempty(b: Seq<char>)
    requires
        b.len() > 0,
        !is_ws(b.last()),
    ensures
        words(b).len() > 0,
    decreases b.len(),
{
    if b.len() >= 2 && !is_ws(b[b.len() - 2]) {
        let d = b.drop_last();
        assert(d.last() == b[b.len() - 2]);
        lemma_words_nonempty(d);
    }
}

/// Whitespace separates the words of its two sides.
pub proof fn lemma_words_concat(a: Seq<char>, c: char, b: Seq<char>)
    requires
        is_ws(c),
    ensures
        words(a.push(c) + b) == words(a) + words(b),
    decreases b.len(),
{
    if b.len() == 0 {
        assert(a.push(c) + b =~= a.push(c));
        assert(a.push(c).drop_last() =~= a);
        assert(words(b) =~= Seq::<Seq<char>>::empty());
        assert(words(a) + words(b) =~= words(a));
    } else {
        let b0 = b.drop_last();
        let x = b.last();
        lemma_words_concat(a, c, b0);
        let y = a.push(c) + b0;
        assert(y.push(x) =~= a.push(c) + b);
        assert((a.push(c) + b).drop_last() =~= y);
        if is_ws(x) {
            assert(words(a) + words(b0) =~= words(a) + words(b));
        } else if b0.len() > 0 && !is_ws(b0.last()) {
            lemma_words_nonempty(b0);
            assert(y[y.len() - 1] == b0.last());
            assert(b[b.len() - 2] == b0.last());
            assert(b.drop_last() =~= b0);
            assert((words(a) + words(b0)).drop_last() =~= words(a) + words(b0).drop_last());
            assert((words(a) + words(b0)).last() == words(b0).last());
            assert(words(a) + words(b) =~= (words(a) + words(b0)).drop_last().push((words(a) + words(b0)).last().push(x)));
        } else {
            if b0.len() == 0 {
                assert(y[y.len() - 1] == c);
            } else {
                assert(y[y.len() - 1] == b0.last());
                assert(b[b.len() - 2] == b0.last());
            }
            assert(b.drop_last() =~= b0);
            assert(words(a) + words(b) =~= (words(a) + words(b0)).push(seq![x]));
        }
    }
}

} // verus!
