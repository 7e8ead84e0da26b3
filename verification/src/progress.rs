//! Progress events of a search and the JSON details they carry, and the reading
//! of tool results and tool arguments for the user.
use crate::json::JsonValue;
use crate::text::{contains_seq, dec, occurs_at, words};
use crate::tools::{str_or, tool_args, u64_or};
use crate::types::ProgressEvent;
use vstd::prelude::*;

verus! {

/// Whether `e` has exactly the given fields.
pub open spec fn event_is(
    e: ProgressEvent,
    phase: Seq<char>,
    message: Seq<char>,
    percent: u8,
    detail: Seq<char>,
    tokens: u32,
) -> bool {
    &&& e.phase@ == phase
    &&& e.message@ == message
    &&& e.percent == percent
    &&& e.detail@ == detail
    &&& e.tokens == tokens
}

/// A progress event.
pub fn ev(phase: &str, message: &str, percent: u8, detail: &str, tokens: u32) -> (res: ProgressEvent)
    ensures
        event_is(res, phase@, message@, percent, detail@, tokens),
{
    ProgressEvent {
        phase: crate::text::owned(phase),
        message: crate::text::owned(message),
        percent,
        detail: crate::text::owned(detail),
        tokens,
    }
}

// ── JSON details ──

/// A value of a detail member: a number, a flag or a text.
#[derive(Debug)]
pub enum DetailValue {
    Num(u64),
    Flag(bool),
    Text(String),
}

/// What a detail value holds.
pub enum DetailView {
    Num(u64),
    Flag(bool),
    Text(Seq<char>),
}

impl View for DetailValue {
    type V = DetailView;

    open spec fn view(&self) -> DetailView {
        match self {
            DetailValue::Num(n) => DetailView::Num(*n),
            DetailValue::Flag(b) => DetailView::Flag(*b),
            DetailValue::Text(t) => DetailView::Text(t@),
        }
    }
}

/// The views of detail members.
pub open spec fn detail_views(ms: Seq<(String, DetailValue)>) -> Seq<(Seq<char>, DetailView)> {
    ms.map_values(|m: (String, DetailValue)| (m.0@, m.1@))
}

/// The text that `serde_json` writes for the JSON object with the given members
/// (`json!({..}).to_string()`).
pub uninterp spec fn detail_text(members: Seq<(Seq<char>, DetailView)>) -> Seq<char>;

/// A character inside a JSON string as `serde_json` writes it: the quote, the backslash
/// and the control characters below U+0020 escaped (short forms for backspace, form
/// feed, newline, carriage return and tab; else `\u00` and two lower-case hex digits).
pub open spec fn json_escape_char(c: char) -> Seq<char> {
    let n = c as u32;
    if c == '"' {
        seq!['\\', '"']
    } else if c == '\\' {
        seq!['\\', '\\']
    } else if n == 8 {
        seq!['\\', 'b']
    } else if n == 12 {
        seq!['\\', 'f']
    } else if c == '\n' {
        seq!['\\', 'n']
    } else if c == '\r' {
        seq!['\\', 'r']
    } else if c == '\t' {
        seq!['\\', 't']
    } else if n < 32 {
        seq!['\\', 'u', '0', '0'] + crate::commands::hex2(n as u8)
    } else {
        seq![c]
    }
}

/// A JSON string literal of `s`.
pub open spec fn json_quoted(s: Seq<char>) -> Seq<char> {
    seq!['"'] + s.map_values(|c: char| json_escape_char(c)).flatten() + seq!['"']
}

/// The JSON text of a member's value.
pub open spec fn detail_value_text(v: DetailView) -> Seq<char> {
    match v {
        DetailView::Num(n) => dec(n as nat),
        DetailView::Flag(b) => if b {
            "true"@
        } else {
            "false"@
        },
        DetailView::Text(t) => json_quoted(t),
    }
}

/// Byte strings in lexicographic order, a proper prefix first.
pub open spec fn bytes_before(a: Seq<u8>, b: Seq<u8>) -> bool
    decreases a.len(),
{
    if a.len() == 0 {
        b.len() > 0
    } else if b.len() == 0 {
        false
    } else if a[0] != b[0] {
        a[0] < b[0]
    } else {
        bytes_before(a.drop_first(), b.drop_first())
    }
}

/// Keys in the order of `String`: by their UTF-8 bytes.
pub open spec fn key_before(a: Seq<char>, b: Seq<char>) -> bool {
    bytes_before(vstd::utf8::encode_utf8(a), vstd::utf8::encode_utf8(b))
}

/// Inserts a member into members ordered by key, before the first with a greater key.
pub open spec fn insert_by_key(
    ms: Seq<(Seq<char>, DetailView)>,
    m: (Seq<char>, DetailView),
) -> Seq<(Seq<char>, DetailView)>
    decreases ms.len(),
{
    if ms.len() == 0 {
        seq![m]
    } else if key_before(m.0, ms[0].0) {
        seq![m] + ms
    } else {
        seq![ms[0]] + insert_by_key(ms.drop_first(), m)
    }
}

/// The members ordered by key.
pub open spec fn members_by_key(ms: Seq<(Seq<char>, DetailView)>) -> Seq<(Seq<char>, DetailView)>
    decreases ms.len(),
{
    if ms.len() == 0 {
        seq![]
    } else {
        insert_by_key(members_by_key(ms.drop_last()), ms.last())
    }
}

/// No two members share a key.
pub open spec fn keys_distinct(ms: Seq<(Seq<char>, DetailView)>) -> bool {
    forall|i: int, j: int| 0 <= i < j < ms.len() ==> (#[trigger] ms[i]).0 != (#[trigger] ms[j]).0
}

/// The compact JSON text of an object whose members have distinct keys: the members
/// ordered by key, each as its quoted key, a colon and its value, joined by commas.
pub open spec fn object_text(ms: Seq<(Seq<char>, DetailView)>) -> Seq<char> {
    let sorted = members_by_key(ms);
    "{"@ + crate::text::joined(
        Seq::new(sorted.len(), |i: int| json_quoted(sorted[i].0) + ":"@ + detail_value_text(sorted[i].1)),
        ","@,
    ) + "}"@
}

/// `serde_json::Value::to_string` of an object of numbers, flags and texts. The contract
/// claims that the text is a function of the members (`detail_text`), and, where the
/// keys are distinct, the compact text of `object_text`: `serde_json`'s map orders its
/// keys as `String` does, and writes numbers in decimal, flags as `true`/`false` and
/// texts escaped. Which of two members with one key is kept is left unsaid.
#[verifier::external_body]
pub(crate) fn render_detail(members: &Vec<(String, DetailValue)>) -> (res: String)
    ensures
        res@ == detail_text(detail_views(members@)),
        keys_distinct(detail_views(members@)) ==> res@ == object_text(detail_views(members@)),
{
    let map: serde_json::Map<String, serde_json::Value> = members.iter().map(|(k, v)| (k.clone(), match v {
        DetailValue::Num(n) => serde_json::Value::from(*n),
        DetailValue::Flag(b) => serde_json::Value::Bool(*b),
        DetailValue::Text(t) => serde_json::Value::String(t.clone()),
    })).collect();
    serde_json::Value::Object(map).to_string()
}

/// A number member.
pub fn num_member(key: &str, n: u64) -> (res: (String, DetailValue))
    ensures
        res.0@ == key@,
        res.1@ == DetailView::Num(n),
{
    (crate::text::owned(key), DetailValue::Num(n))
}

/// A flag member.
pub fn flag_member(key: &str, b: bool) -> (res: (String, DetailValue))
    ensures
        res.0@ == key@,
        res.1@ == DetailView::Flag(b),
{
    (crate::text::owned(key), DetailValue::Flag(b))
}

/// A text member.
pub fn text_member(key: &str, t: &str) -> (res: (String, DetailValue))
    ensures
        res.0@ == key@,
        res.1@ == DetailView::Text(t@),
{
    (crate::text::owned(key), DetailValue::Text(crate::text::owned(t)))
}

// ── Describing tool calls ──

/// A sentence, in Chinese, that says what a tool call does.
pub open spec fn tool_call_text(name: Seq<char>, args_json: Seq<char>) -> Seq<char> {
    let args = tool_args(args_json);
    if name == "search_papers"@ {
        "搜索关键词: 「"@ + str_or(args.at("query"@), "?"@) + "」 (最多 "@ + dec(u64_or(args.at("max_results"@), 15) as nat) + " 篇)"@
    } else if name == "get_cited_papers"@ {
        "查找引用了 ["@ + dec(u64_or(args.at("paper_index"@), 0) as nat) + "] 的论文"@
    } else if name == "get_references"@ {
        "查找 ["@ + dec(u64_or(args.at("paper_index"@), 0) as nat) + "] 引用的论文"@
    } else if name == "finish_search"@ {
        "检索阶段完成，开始评分…"@
    } else {
        args_json
    }
}

/// Describes a tool call for the user.
pub fn fmt_tool_args(name: &str, args_json: &str) -> (res: String)
    ensures
        res@ == tool_call_text(name@, args_json@),
{
    let args = match crate::json::parse_json(args_json) {
        Ok(v) => v,
        Err(_) => JsonValue::Null,
    };
    if crate::text::str_eq(name, "search_papers") {
        let q = match args.get("query").as_str() {
            Some(q) => q,
            None => "?",
        };
        let max = match args.get("max_results").as_u64() {
            Some(n) => n,
            None => 15,
        };
        let mut s = crate::text::owned("搜索关键词: 「");
        s.append(q);
        s.append("」 (最多 ");
        crate::text::push_dec(&mut s, max);
        s.append(" 篇)");
        assert(s@ =~= tool_call_text(name@, args_json@));
        return s;
    }
    if crate::text::str_eq(name, "get_cited_papers") || crate::text::str_eq(name, "get_references") {
        let idx = match args.get("paper_index").as_u64() {
            Some(n) => n,
            None => 0,
        };
        if crate::text::str_eq(name, "get_cited_papers") {
            let mut s = crate::text::owned("查找引用了 [");
            crate::text::push_dec(&mut s, idx);
            s.append("] 的论文");
            assert(s@ =~= tool_call_text(name@, args_json@));
            return s;
        } else {
            let mut s = crate::text::owned("查找 [");
            crate::text::push_dec(&mut s, idx);
            s.append("] 引用的论文");
            assert(s@ =~= tool_call_text(name@, args_json@));
            return s;
        }
    }
    if crate::text::str_eq(name, "finish_search") {
        return crate::text::owned("检索阶段完成，开始评分…");
    }
    crate::text::owned(args_json)
}

// ── Reading how many papers a tool result added ──

/// The position of the first occurrence of `pat` in `s`, if any.
pub open spec fn first_occurrence(s: Seq<char>, pat: Seq<char>) -> Option<int> {
    if contains_seq(s, pat) {
        Some(choose|i: int| occurs_at(s, pat, i) && forall|j: int| 0 <= j < i ==> !occurs_at(s, pat, j))
    } else {
        None
    }
}

/// `s.split(pat).nth(1)`: the text between the first and the second occurrence of
/// `pat` (or the end), where `pat` occurs.
pub open spec fn second_piece(s: Seq<char>, pat: Seq<char>) -> Option<Seq<char>> {
    match first_occurrence(s, pat) {
        None => None,
        Some(i) => {
            let rest = s.skip(i + pat.len());
            match first_occurrence(rest, pat) {
                Some(j) => Some(rest.take(j)),
                None => Some(rest),
            }
        },
    }
}

/// Whether every character of `d` is an ASCII digit.
pub open spec fn all_digits(d: Seq<char>) -> bool {
    forall|i: int| 0 <= i < d.len() ==> '0' <= #[trigger] d[i] <= '9'
}

/// The number that the decimal digits `d` write.
pub open spec fn digits_value(d: Seq<char>) -> nat
    decreases d.len(),
{
    if d.len() == 0 {
        0
    } else {
        digits_value(d.drop_last()) * 10 + (d.last() as nat - 48) as nat
    }
}

/// `w.parse::<usize>()`: an optional '+' and at least one decimal digit, with a value
/// that fits.
pub open spec fn parse_usize(w: Seq<char>) -> Option<usize> {
    let d = if w.len() > 0 && w[0] == '+' {
        w.skip(1)
    } else {
        w
    };
    if d.len() > 0 && all_digits(d) && digits_value(d) <= usize::MAX {
        Some(digits_value(d) as usize)
    } else {
        None
    }
}

/// The number of papers a tool result reports ("… returned N papers:"): the first word
/// after the first "returned ", read as a number; 0 where there is none.
pub open spec fn papers_in_result(result: Seq<char>) -> usize {
    match second_piece(result, "returned "@) {
        None => 0,
        Some(piece) => {
            let ws = words(piece);
            if ws.len() == 0 {
                0
            } else {
                match parse_usize(ws[0]) {
                    Some(n) => n,
                    None => 0,
                }
            }
        },
    }
}

/// The position of the first occurrence of `pat` in `s` at or after `from`.
fn find_from(s: &Vec<char>, pat: &Vec<char>, from: usize) -> (res: Option<usize>)
    requires
        from <= s@.len(),
        pat@.len() > 0,
    ensures
        match res {
            Some(i) => from <= i && occurs_at(s@, pat@, i as int) && forall|j: int| from <= j < i ==> !occurs_at(s@, pat@, j),
            None => forall|j: int| from <= j ==> !occurs_at(s@, pat@, j),
        },
{
    if pat.len() > s.len() {
        return None;
    }
    let last = s.len() - pat.len();
    if from > last {
        return None;
    }
    let mut i = from;
    loop
        invariant
            from <= i <= last,
            last == s@.len() - pat@.len(),
            forall|j: int| from <= j < i ==> !occurs_at(s@, pat@, j),
        ensures
            forall|j: int| from <= j <= last ==> !occurs_at(s@, pat@, j),
        decreases last - i,
    {
        if crate::text::match_at(s, pat, i) {
            return Some(i);
        }
        if i == last {
            break;
        }
        i = i + 1;
    }
    None
}

proof fn lemma_first_occurrence(s: Seq<char>, pat: Seq<char>, from: int, i: int)
    requires
        0 <= from,
        occurs_at(s, pat, i),
        from <= i,
        forall|j: int| from <= j < i ==> !occurs_at(s, pat, j),
        forall|j: int| 0 <= j < from ==> !occurs_at(s, pat, j),
    ensures
        first_occurrence(s, pat) == Some(i),
{
    let k = choose|k: int| occurs_at(s, pat, k) && forall|j: int| 0 <= j < k ==> !occurs_at(s, pat, j);
    assert(occurs_at(s, pat, k));
    if k < i {
        if k < from {
        } else {
        }
    }
    if i < k {
        assert(!occurs_at(s, pat, i));
    }
}

/// `w.parse::<usize>().ok()`.
fn parse_word(w: &Vec<char>) -> (res: Option<usize>)
    ensures
        res == parse_usize(w@),
{
    let start: usize = if w.len() > 0 && w[0] == '+' {
        1
    } else {
        0
    };
    let ghost d = if w@.len() > 0 && w@[0] == '+' {
        w@.skip(1)
    } else {
        w@
    };
    assert(d =~= w@.skip(start as int));
    if start >= w.len() {
        assert(d.len() == 0);
        return None;
    }
    let mut value: usize = 0;
    let mut i = start;
    while i < w.len()
        invariant
            start <= i <= w@.len(),
            d == w@.skip(start as int),
            d == (if w@.len() > 0 && w@[0] == '+' {
                w@.skip(1)
            } else {
                w@
            }),
            all_digits(w@.subrange(start as int, i as int)),
            value as nat == digits_value(w@.subrange(start as int, i as int)),
        decreases w.len() - i,
    {
        let c = w[i];
        assert(w@.subrange(start as int, i + 1).drop_last() =~= w@.subrange(start as int, i as int));
        if c < '0' || c > '9' {
            assert(d[i - start] == c);
            assert(!('0' <= d[i - start] <= '9'));
            assert(!all_digits(d));
            return None;
        }
        let digit: usize = (c as u32 - 48) as usize;
        let m = value.checked_mul(10);
        match m {
            None => {
                proof {
                    lemma_digits_grow(w@.subrange(start as int, w@.len() as int), (i - start) as int);
                    assert(w@.subrange(start as int, w@.len() as int) =~= d);
                    assert(w@.subrange(start as int, w@.len() as int).take(i - start + 1) =~= w@.subrange(start as int, i + 1));
                }
                return None;
            },
            Some(m) => match m.checked_add(digit) {
                None => {
                    proof {
                        lemma_digits_grow(w@.subrange(start as int, w@.len() as int), (i - start) as int);
                        assert(w@.subrange(start as int, w@.len() as int) =~= d);
                        assert(w@.subrange(start as int, w@.len() as int).take(i - start + 1) =~= w@.subrange(start as int, i + 1));
                    }
                    return None;
                },
                Some(v) => {
                    value = v;
                },
            },
        }
        i = i + 1;
    }
    assert(w@.subrange(start as int, w@.len() as int) =~= d);
    Some(value)
}

proof fn lemma_digits_grow(d: Seq<char>, k: int)
    requires
        0 <= k < d.len(),
    ensures
        digits_value(d.take(k + 1)) <= digits_value(d) || !all_digits(d),
    decreases d.len(),
{
    if all_digits(d) {
        if k + 1 < d.len() {
            lemma_digits_grow(d.drop_last(), k);
            assert(d.drop_last().take(k + 1) =~= d.take(k + 1));
            assert(all_digits(d.drop_last()));
        } else {
            assert(d.take(k + 1) =~= d);
        }
    }
}

proof fn lemma_shift_occurrence(s: Seq<char>, pat: Seq<char>, from: int, k: int)
    requires
        0 <= from <= s.len(),
        0 <= k,
    ensures
        occurs_at(s.skip(from), pat, k) <==> occurs_at(s, pat, from + k),
{
    let rest = s.skip(from);
    if k + pat.len() <= rest.len() {
        assert(rest.subrange(k, k + pat.len()) =~= s.subrange(from + k, from + k + pat.len()));
    }
}

/// The characters of `s` from `from` up to `end`.
fn sub_chars(s: &Vec<char>, from: usize, end: usize) -> (res: Vec<char>)
    requires
        from <= end <= s@.len(),
    ensures
        res@ == s@.subrange(from as int, end as int),
{
    let mut piece: Vec<char> = Vec::new();
    let mut k = from;
    while k < end
        invariant
            from <= k <= end <= s@.len(),
            piece@ == s@.subrange(from as int, k as int),
        decreases end - k,
    {
        piece.push(s[k]);
        k = k + 1;
        assert(piece@ =~= s@.subrange(from as int, k as int));
    }
    piece
}

/// The text between the first and second occurrence of `pat` in `s` (or the end).
fn second_piece_exec(s: &Vec<char>, pat: &Vec<char>) -> (res: Option<Vec<char>>)
    requires
        pat@.len() > 0,
    ensures
        match res {
            Some(p) => second_piece(s@, pat@) == Some(p@),
            None => second_piece(s@, pat@) is None,
        },
{
    let first = find_from(s, pat, 0);
    let i = match first {
        None => {
            assert(!contains_seq(s@, pat@));
            return None;
        },
        Some(i) => i,
    };
    proof {
        lemma_first_occurrence(s@, pat@, 0, i as int);
    }
    assert(i + pat@.len() <= s@.len());
    let n = s.len();
    assert(n == s@.len());
    let from = i + pat.len();
    let second = find_from(s, pat, from);
    let ghost rest = s@.skip(from as int);
    match second {
        Some(j) => {
            proof {
                lemma_shift_occurrence(s@, pat@, from as int, j - from);
                assert forall|k: int| 0 <= k < j - from implies !occurs_at(rest, pat@, k) by {
                    lemma_shift_occurrence(s@, pat@, from as int, k);
                }
                lemma_first_occurrence(rest, pat@, 0, j - from);
            }
            let piece = sub_chars(s, from, j);
            assert(rest.take(j - from) =~= piece@);
            Some(piece)
        },
        None => {
            proof {
                assert forall|k: int| 0 <= k implies !occurs_at(rest, pat@, k) by {
                    lemma_shift_occurrence(s@, pat@, from as int, k);
                }
                assert(!contains_seq(rest, pat@));
            }
            let piece = sub_chars(s, from, n);
            assert(rest =~= piece@);
            Some(piece)
        },
    }
}

/// How many papers a tool result reports as returned.
pub fn count_papers_in_result(result: &str) -> (res: usize)
    ensures
        res == papers_in_result(result@),
{
    let s = crate::text::chars_of(result);
    let pat = crate::text::chars_of("returned ");
    proof {
        reveal_strlit("returned ");
    }
    let piece = match second_piece_exec(&s, &pat) {
        Some(p) => p,
        None => return 0,
    };
    let text = crate::text::string_from_chars(&piece);
    let ws = crate::text::split_ws(text.as_str());
    if ws.len() == 0 {
        return 0;
    }
    let w = crate::text::chars_of(ws[0].as_str());
    assert(w@ == words(piece@)[0]);
    match parse_word(&w) {
        Some(n) => n,
        None => 0,
    }
}

// ── The count that a tool answer reports ──

/// The characters of "returned ".
proof fn lemma_returned_chars()
    ensures
        "returned "@.len() == 9,
        "returned "@[0] == 'r',
        forall|k: int| 0 <= k < 9 ==> #[trigger] "returned "@[k] != '"',
{
    reveal_strlit("returned ");
}

/// A window that starts with another character than 'r' is no occurrence.
proof fn lemma_not_r(s: Seq<char>, j: int)
    requires
        0 <= j < s.len(),
        s[j] != 'r',
    ensures
        !occurs_at(s, "returned "@, j),
{
    lemma_returned_chars();
    if occurs_at(s, "returned "@, j) {
        assert(s.subrange(j, j + 9)[0] == s[j]);
    }
}

/// A window over a '"' is no occurrence.
proof fn lemma_not_over_quote(s: Seq<char>, j: int, k: int)
    requires
        0 <= j <= k < j + 9,
        k < s.len(),
        s[k] == '"',
    ensures
        !occurs_at(s, "returned "@, j),
{
    lemma_returned_chars();
    if occurs_at(s, "returned "@, j) {
        assert(s.subrange(j, j + 9)[k - j] == s[k]);
        assert("returned "@[k - j] != '"');
    }
}

/// The decimal digits of a number read back as that number.
proof fn lemma_dec_parse(n: nat)
    ensures
        dec(n).len() > 0,
        all_digits(dec(n)),
        digits_value(dec(n)) == n,
        forall|i: int| 0 <= i < dec(n).len() ==> !crate::text::is_ws(#[trigger] dec(n)[i]) && dec(n)[i] != 'r' && dec(n)[i] != '+',
    decreases n,
{
    let d = dec(n);
    let c = crate::text::digit_char(n % 10);
    assert(c as nat == n % 10 + 48);
    if n >= 10 {
        lemma_dec_parse(n / 10);
        assert(d.drop_last() =~= dec(n / 10));
        assert(d.last() == c);
        assert(digits_value(d) == digits_value(dec(n / 10)) * 10 + n % 10);
        assert forall|i: int| 0 <= i < d.len() implies !crate::text::is_ws(#[trigger] d[i]) && d[i] != 'r' && d[i] != '+' by {
            if i < d.len() - 1 {
                assert(d[i] == dec(n / 10)[i]);
            }
        }
        assert forall|i: int| 0 <= i < d.len() implies '0' <= #[trigger] d[i] <= '9' by {
            if i < d.len() - 1 {
                assert(d[i] == dec(n / 10)[i]);
            }
        }
    } else {
        assert(d == seq![c]);
        assert(d.drop_last() =~= Seq::<char>::empty());
        assert(digits_value(d.drop_last()) == 0);
    }
}

/// Where a pattern occurs, it has a first occurrence.
proof fn lemma_min_occurrence(s: Seq<char>, pat: Seq<char>, k: int)
    requires
        occurs_at(s, pat, k),
    ensures
        exists|i: int| occurs_at(s, pat, i) && forall|j: int| 0 <= j < i ==> !occurs_at(s, pat, j),
    decreases k,
{
    if exists|j: int| 0 <= j < k && occurs_at(s, pat, j) {
        let j = choose|j: int| 0 <= j < k && occurs_at(s, pat, j);
        lemma_min_occurrence(s, pat, j);
    } else {
        assert(occurs_at(s, pat, k) && forall|j: int| 0 <= j < k ==> !occurs_at(s, pat, j));
    }
}

/// The text after the first "returned ", cut at the next one: where it starts with a
/// word `w` and a space, its first word is `w`.
proof fn lemma_first_word_after(rest: Seq<char>, w: Seq<char>)
    requires
        0 < w.len() < rest.len(),
        rest.take(w.len() as int) == w,
        rest[w.len() as int] == ' ',
        forall|i: int| 0 <= i < w.len() ==> #[trigger] w[i] != 'r' && !crate::text::is_ws(w[i]),
    ensures
        ({
            let piece = match first_occurrence(rest, "returned "@) {
                Some(j) => rest.take(j),
                None => rest,
            };
            words(piece).len() > 0 && words(piece)[0] == w
        }),
{
    lemma_returned_chars();
    let p = "returned "@;
    let n = w.len() as int;
    let piece = match first_occurrence(rest, p) {
        Some(j) => rest.take(j),
        None => rest,
    };
    if contains_seq(rest, p) {
        let k = choose|k: int| occurs_at(rest, p, k);
        lemma_min_occurrence(rest, p, k);
        let j = first_occurrence(rest, p)->0;
        assert(occurs_at(rest, p, j));
        if j <= n {
            if j < n {
                assert(rest[j] == rest.take(n)[j]);
                assert(rest[j] == w[j]);
            }
            lemma_not_r(rest, j);
        }
        assert(piece == rest.take(j));
    }
    let m = piece.len() as int;
    assert(m > n);
    assert(piece.take(n) =~= w) by {
        assert forall|i: int| 0 <= i < n implies piece[i] == w[i] by {
            assert(piece[i] == rest[i]);
            assert(rest[i] == rest.take(n)[i]);
        }
    }
    assert(piece[n] == ' ');
    let t2 = piece.skip(n + 1);
    assert(piece =~= w.push(' ') + t2);
    assert(crate::text::is_ws(' '));
    crate::text::lemma_words_concat(w, ' ', t2);
    crate::text::lemma_words_single(w);
}

/// Concatenation is associative.
proof fn lemma_add_assoc(x: Seq<char>, y: Seq<char>, z: Seq<char>)
    ensures
        (x + y) + z == x + (y + z),
{
    assert((x + y) + z =~= x + (y + z));
}

/// An occurrence inside the query part of "Search for \"" + q + t is an occurrence in q.
proof fn lemma_window_in_query(query: Seq<char>, t: Seq<char>, j: int)
    requires
        12 <= j,
        j + 9 <= 12 + query.len(),
        occurs_at("Search for \""@ + query + t, "returned "@, j),
    ensures
        occurs_at(query, "returned "@, j - 12),
{
    reveal_strlit("Search for \"");
    lemma_returned_chars();
    let s = "Search for \""@ + query + t;
    assert(query.subrange(j - 12, j - 3) =~= s.subrange(j, j + 9));
}

/// In "Search for \"" + q + t, where t starts with "\" returned ", the first
/// "returned " is the one of t, where q does not contain it.
#[verifier::rlimit(40)]
proof fn lemma_prefix_occurrence(query: Seq<char>, t: Seq<char>)
    requires
        !contains_seq(query, "returned "@),
        t.len() >= 11,
        t[0] == '"',
        t[1] == ' ',
        t.subrange(2, 11) == "returned "@,
    ensures
        first_occurrence("Search for \""@ + query + t, "returned "@) == Some(14 + query.len() as int),
{
    reveal_strlit("Search for \"");
    lemma_returned_chars();
    let p = "returned "@;
    let s = "Search for \""@ + query + t;
    let q = query.len() as int;
    let i0 = 14 + q;
    assert(s[11] == '"');
    assert(s[12 + q] == t[0]);
    assert(s[13 + q] == t[1]);
    assert(s.subrange(i0, i0 + 9) =~= t.subrange(2, 11));
    assert(occurs_at(s, p, i0));
    assert forall|j: int| 0 <= j < i0 implies !occurs_at(s, p, j) by {
        if j <= 2 {
            assert(s[j] == "Search for \""@[j]);
            lemma_not_r(s, j);
        } else if j <= 11 {
            lemma_not_over_quote(s, j, 11);
        } else if j + 9 <= 12 + q {
            if occurs_at(s, p, j) {
                lemma_window_in_query(query, t, j);
            }
        } else if j <= 12 + q {
            lemma_not_over_quote(s, j, 12 + q);
        } else {
            lemma_not_r(s, j);
        }
    }
    lemma_first_occurrence(s, p, 0, i0);
}

/// The answer without papers: "Search for \"q\" returned no results. ...".
#[verifier::rlimit(40)]
proof fn lemma_empty_answer(query: Seq<char>)
    requires
        !contains_seq(query, "returned "@),
    ensures
        papers_in_result(crate::tools::search_results_text(query, seq![], 0)) == 0,
{
    let s = crate::tools::search_results_text(query, seq![], 0);
    let a = "Search for \""@;
    let tail = "\" returned no results. Try different keywords."@;
    reveal_strlit("\" returned no results. Try different keywords.");
    reveal_strlit("Search for \"");
    lemma_returned_chars();
    assert(s == a + query + tail);
    assert(tail.subrange(2, 11) =~= "returned "@) by {
        reveal_strlit("returned ");
    }
    lemma_prefix_occurrence(query, tail);
    let q = query.len() as int;
    let rest = s.skip(14 + q + 9);
    assert(rest =~= tail.skip(11));
    let w = seq!['n', 'o'];
    assert(rest.take(2) =~= w);
    assert(rest[2] == ' ');
    assert forall|i: int| 0 <= i < w.len() implies #[trigger] w[i] != 'r' && !crate::text::is_ws(w[i]) by {}
    lemma_first_word_after(rest, w);
    assert(!('0' <= w[0] <= '9'));
}

/// The answer with papers, as the query between its prefix and the rest.
proof fn lemma_answer_shape(query: Seq<char>, ps: Seq<crate::types::PaperView>, start: nat)
    requires
        ps.len() > 0,
    ensures
        crate::tools::search_results_text(query, ps, start) == "Search for \""@ + query + ("\" returned "@ + (dec(
            ps.len(),
        ) + (" papers:\n"@ + crate::text::joined(crate::tools::paper_entries(ps, start), "\n\n"@)))),
{
    let a = "Search for \""@;
    let l = "\" returned "@;
    let w = dec(ps.len());
    let x = " papers:\n"@;
    let jn = crate::text::joined(crate::tools::paper_entries(ps, start), "\n\n"@);
    lemma_add_assoc(a + query + l + w, x, jn);
    lemma_add_assoc(a + query + l, w, x + jn);
    lemma_add_assoc(a + query, l, w + (x + jn));
}

/// Where the first "returned " of a text is followed by a word `w` and a space, the
/// text reports the number that `w` writes.
proof fn lemma_report_of(s: Seq<char>, i0: int, w: Seq<char>)
    requires
        first_occurrence(s, "returned "@) == Some(i0),
        0 <= i0,
        i0 + 9 + w.len() < s.len(),
        s.skip(i0 + 9).take(w.len() as int) == w,
        s[i0 + 9 + w.len()] == ' ',
        w.len() > 0,
        forall|i: int| 0 <= i < w.len() ==> #[trigger] w[i] != 'r' && !crate::text::is_ws(w[i]),
    ensures
        papers_in_result(s) == match parse_usize(w) {
            Some(n) => n,
            None => 0,
        },
{
    lemma_returned_chars();
    let rest = s.skip(i0 + 9);
    assert(rest[w.len() as int] == s[i0 + 9 + w.len()]);
    lemma_first_word_after(rest, w);
}

/// A text "Search for \"q\" returned N" followed by a space reports N.
#[verifier::rlimit(40)]
proof fn lemma_shaped_report(query: Seq<char>, n: nat, body: Seq<char>)
    requires
        !contains_seq(query, "returned "@),
        n <= usize::MAX,
        body.len() > 0,
        body[0] == ' ',
    ensures
        papers_in_result("Search for \""@ + query + ("\" returned "@ + (dec(n) + body))) == n,
{
    let w = dec(n);
    let t = "\" returned "@ + (w + body);
    let s = "Search for \""@ + query + t;
    reveal_strlit("\" returned ");
    reveal_strlit("Search for \"");
    lemma_returned_chars();
    assert(t.subrange(2, 11) =~= "returned "@) by {
        reveal_strlit("returned ");
    }
    lemma_prefix_occurrence(query, t);
    lemma_dec_parse(n);
    let q = query.len() as int;
    let i0 = 14 + q;
    assert(s.skip(i0 + 9) =~= w + body);
    assert(s.skip(i0 + 9).take(w.len() as int) =~= w);
    assert(s[i0 + 9 + w.len()] == body[0]);
    assert forall|i: int| 0 <= i < w.len() implies #[trigger] w[i] != 'r' && !crate::text::is_ws(w[i]) by {}
    lemma_report_of(s, i0, w);
    assert(w[0] != '+');
    assert(parse_usize(w) == Some(n as usize));
}

/// The answer with papers reports their number.
proof fn lemma_full_answer(query: Seq<char>, ps: Seq<crate::types::PaperView>, start: nat)
    requires
        !contains_seq(query, "returned "@),
        0 < ps.len() <= usize::MAX,
    ensures
        papers_in_result(crate::tools::search_results_text(query, ps, start)) == ps.len(),
{
    let body = " papers:\n"@ + crate::text::joined(crate::tools::paper_entries(ps, start), "\n\n"@);
    lemma_answer_shape(query, ps, start);
    reveal_strlit(" papers:\n");
    lemma_shaped_report(query, ps.len(), body);
}

/// The number that a tool answer reports is the number of papers it lists, where the
/// searched text does not itself contain "returned ".
pub proof fn lemma_reported_count(query: Seq<char>, ps: Seq<crate::types::PaperView>, start: nat)
    requires
        !contains_seq(query, "returned "@),
        ps.len() <= usize::MAX,
    ensures
        papers_in_result(crate::tools::search_results_text(query, ps, start)) == ps.len(),
{
    if ps.len() == 0 {
        assert(ps == Seq::<crate::types::PaperView>::empty());
        assert(crate::tools::search_results_text(query, ps, start) == crate::tools::search_results_text(query, seq![], 0));
        lemma_empty_answer(query);
    } else {
        lemma_full_answer(query, ps, start);
    }
}

} // verus!
