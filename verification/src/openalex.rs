//! The OpenAlex search backend: the addresses it asks, and how it reads the works that
//! come back.
use crate::json::JsonValue;
use crate::text::{byte_len, byte_prefix, cut_fits, dec, joined, string_views};
use crate::tools::{str_or, u64_or};
use crate::types::{Paper, PaperView};
use vstd::prelude::*;

verus! {

/// The OpenAlex backend, by what it computes: the request addresses and the reading
/// of its replies.
pub struct OpenAlexBackend;

/// The name of the backend.
pub const BACKEND_NAME: &'static str = "openalex";

/// The abstract of a work that has none.
pub const NO_ABSTRACT: &'static str = "No abstract available.";

/// The number of bytes after which an abstract is cut.
pub const ABSTRACT_LIMIT: usize = 500;

// ── Percent-encoding ──

/// The bytes that percent-encoding leaves as they are: ASCII letters and digits, and
/// `-`, `.`, `_`, `~`.
pub open spec fn unreserved(b: u8) -> bool {
    (48 <= b <= 57) || (65 <= b <= 90) || (97 <= b <= 122) || b == 45 || b == 46 || b == 95 || b == 126
}

/// The upper-case hexadecimal digit of `d` (below 16).
pub open spec fn hex_digit(d: u8) -> char {
    if d < 10 {
        ((48 + d) as u32) as char
    } else {
        ((55 + d) as u32) as char
    }
}

/// The percent-encoding of bytes: an unreserved byte stands for itself, any other is
/// written `%` and two upper-case hexadecimal digits.
pub open spec fn percent_bytes(b: Seq<u8>) -> Seq<char>
    decreases b.len(),
{
    if b.len() == 0 {
        seq![]
    } else {
        let x = b.last();
        percent_bytes(b.drop_last()) + if unreserved(x) {
            seq![(x as u32) as char]
        } else {
            seq!['%', hex_digit(x / 16), hex_digit(x % 16)]
        }
    }
}

/// The percent-encoding of the UTF-8 bytes of a text.
pub open spec fn percent_encoded(s: Seq<char>) -> Seq<char> {
    percent_bytes(vstd::utf8::encode_utf8(s))
}

/// `urlencoding::encode`: percent-encodes every UTF-8 byte of `s` except ASCII letters,
/// digits and `-`, `_`, `.`, `~`, with upper-case hexadecimal digits, as the crate's
/// documentation and `to_hex_digit` state.
#[verifier::external_body]
fn url_encode(s: &str) -> (res: String)
    ensures
        res@ == percent_encoded(s@),
{
    urlencoding::encode(s).into_owned()
}

// ── Request addresses ──

/// The address of a relevance-ranked keyword search.
pub open spec fn search_address(query: Seq<char>, max_results: nat) -> Seq<char> {
    "https://api.openalex.org/works?search="@ + percent_encoded(query) + "&per_page="@ + dec(max_results)
        + "&sort=relevance_score:desc"@
}

/// The address of the works that cite a work (by their citations, most first).
pub open spec fn citing_address(paper_id: Seq<char>, max_results: nat) -> Seq<char> {
    "https://api.openalex.org/works?filter=cites:"@ + paper_id + "&per_page="@ + dec(max_results)
        + "&sort=cited_by_count:desc"@
}

/// The address of the works that a work cites (by their citations, most first).
pub open spec fn references_address(paper_id: Seq<char>, max_results: nat) -> Seq<char> {
    "https://api.openalex.org/works?filter=cited_by:"@ + paper_id + "&per_page="@ + dec(max_results)
        + "&sort=cited_by_count:desc"@
}

// ── Abstracts ──

/// The (position, word) pairs of an inverted index, member by member and, within a
/// member, position by position; positions that are not `u64` numbers are skipped.
pub open spec fn word_positions(word: Seq<char>, positions: Seq<JsonValue>) -> Seq<(usize, Seq<char>)>
    decreases positions.len(),
{
    if positions.len() == 0 {
        seq![]
    } else {
        word_positions(word, positions.drop_last()) + match positions.last().u64_of() {
            Some(n) => seq![(n as usize, word)],
            None => seq![],
        }
    }
}

/// The pairs of all members of an inverted index.
pub open spec fn index_pairs(entries: Seq<(String, JsonValue)>) -> Seq<(usize, Seq<char>)>
    decreases entries.len(),
{
    if entries.len() == 0 {
        seq![]
    } else {
        index_pairs(entries.drop_last()) + match entries.last().1.array_of() {
            Some(a) => word_positions(entries.last().0@, a),
            None => seq![],
        }
    }
}

/// `s` (sorted by position) with `x` added after every pair whose position is not
/// above its own.
pub open spec fn insert_by_pos(s: Seq<(usize, Seq<char>)>, x: (usize, Seq<char>)) -> Seq<(usize, Seq<char>)>
    decreases s.len(),
{
    if s.len() == 0 || s.last().0 <= x.0 {
        s.push(x)
    } else {
        insert_by_pos(s.drop_last(), x).push(s.last())
    }
}

/// The pairs sorted by position, pairs of equal position in their order (a stable
/// sort by key).
pub open spec fn sort_by_pos(s: Seq<(usize, Seq<char>)>) -> Seq<(usize, Seq<char>)>
    decreases s.len(),
{
    if s.len() == 0 {
        s
    } else {
        insert_by_pos(sort_by_pos(s.drop_last()), s.last())
    }
}

/// The words of the pairs joined by spaces, in position order.
pub open spec fn abstract_words(inverted: JsonValue) -> Seq<char> {
    let pairs = sort_by_pos(index_pairs(inverted.object_of()->0));
    joined(Seq::new(pairs.len(), |i: int| pairs[i].1), " "@)
}

/// A text cut to its first 500 bytes, with "..." where it was longer.
pub open spec fn cut_text(text: Seq<char>) -> Seq<char> {
    if byte_len(text) > 500 {
        byte_prefix(text, 500) + "..."@
    } else {
        text
    }
}

/// The abstract rebuilt from an inverted index: "No abstract available." where the
/// index is not an object; else its words in position order, cut to 500 bytes.
pub open spec fn abstract_text(inverted: JsonValue) -> Seq<char> {
    if inverted.object_of() is Some {
        cut_text(abstract_words(inverted))
    } else {
        NO_ABSTRACT@
    }
}

/// Whether the abstract of an inverted index can be rebuilt: where its text is over
/// 500 bytes, byte 500 starts a character.
pub open spec fn abstract_fits(inverted: JsonValue) -> bool {
    inverted.object_of() is Some ==> cut_fits(abstract_words(inverted), 500)
}

/// Inserting a pair puts it after the longest tail of pairs with a higher position.
proof fn lemma_insert_by_pos(s: Seq<(usize, Seq<char>)>, x: (usize, Seq<char>), p: int)
    requires
        0 <= p <= s.len(),
        p == 0 || s[p - 1].0 <= x.0,
        forall|j: int| p <= j < s.len() ==> #[trigger] s[j].0 > x.0,
    ensures
        insert_by_pos(s, x) == s.take(p).push(x) + s.skip(p),
    decreases s.len(),
{
    if p == s.len() {
        assert(s.skip(p) =~= Seq::<(usize, Seq<char>)>::empty());
        assert(s.take(p) =~= s);
        if s.len() > 0 {
            assert(s.last() == s[p - 1]);
        }
        assert(insert_by_pos(s, x) =~= s.take(p).push(x) + s.skip(p));
    } else {
        let d = s.drop_last();
        assert(s.last().0 > x.0);
        assert forall|j: int| p <= j < d.len() implies #[trigger] d[j].0 > x.0 by {
            assert(d[j] == s[j]);
        }
        if p > 0 {
            assert(d[p - 1] == s[p - 1]);
        }
        lemma_insert_by_pos(d, x, p);
        assert(d.take(p) =~= s.take(p));
        assert(d.skip(p).push(s.last()) =~= s.skip(p));
        assert(insert_by_pos(s, x) =~= s.take(p).push(x) + s.skip(p));
    }
}

/// The (position, word) pairs of a list, by their characters.
pub open spec fn pair_views(v: Seq<(usize, String)>) -> Seq<(usize, Seq<char>)> {
    v.map_values(|t: (usize, String)| (t.0, t.1@))
}

impl OpenAlexBackend {
    /// The name of the backend.
    pub fn name() -> (res: &'static str)
        ensures
            res@ == BACKEND_NAME@,
    {
        BACKEND_NAME
    }

    /// The address of a keyword search for `query`, at most `max_results` works.
    pub fn search_url(query: &str, max_results: usize) -> (res: String)
        ensures
            res@ == search_address(query@, max_results as nat),
    {
        let mut u = crate::text::owned("https://api.openalex.org/works?search=");
        let q = url_encode(query);
        u.append(q.as_str());
        u.append("&per_page=");
        crate::text::push_dec(&mut u, max_results as u64);
        u.append("&sort=relevance_score:desc");
        u
    }

    /// The address of the works citing `paper_id`.
    pub fn citing_url(paper_id: &str, max_results: usize) -> (res: String)
        ensures
            res@ == citing_address(paper_id@, max_results as nat),
    {
        let mut u = crate::text::owned("https://api.openalex.org/works?filter=cites:");
        u.append(paper_id);
        u.append("&per_page=");
        crate::text::push_dec(&mut u, max_results as u64);
        u.append("&sort=cited_by_count:desc");
        u
    }

    /// The address of the works that `paper_id` cites.
    pub fn references_url(paper_id: &str, max_results: usize) -> (res: String)
        ensures
            res@ == references_address(paper_id@, max_results as nat),
    {
        let mut u = crate::text::owned("https://api.openalex.org/works?filter=cited_by:");
        u.append(paper_id);
        u.append("&per_page=");
        crate::text::push_dec(&mut u, max_results as u64);
        u.append("&sort=cited_by_count:desc");
        u
    }

    /// The words of an inverted index (an object), joined by spaces in position order.
    fn index_words(entries: &Vec<(String, JsonValue)>) -> (res: String)
        ensures
            res@ == abstract_words(JsonValue::Object(*entries)),
    {
        let ghost all = index_pairs(entries@);
        let mut sorted: Vec<(usize, String)> = Vec::new();
        let mut i: usize = 0;
        while i < entries.len()
            invariant
                i <= entries@.len(),
                all == index_pairs(entries@),
                pair_views(sorted@) == sort_by_pos(index_pairs(entries@.take(i as int))),
            decreases entries.len() - i,
        {
            let word = &entries[i].0;
            let ghost before = index_pairs(entries@.take(i as int));
            assert(entries@.take(i + 1).drop_last() =~= entries@.take(i as int));
            match entries[i].1.as_array() {
                Some(positions) => {
                    let mut k: usize = 0;
                    while k < positions.len()
                        invariant
                            k <= positions@.len(),
                            pair_views(sorted@) == sort_by_pos(before + word_positions(word@, positions@.take(k as int))),
                        decreases positions.len() - k,
                    {
                        let ghost prev = before + word_positions(word@, positions@.take(k as int));
                        assert(positions@.take(k + 1).drop_last() =~= positions@.take(k as int));
                        match positions[k].as_u64() {
                            Some(n) => {
                                let pos = n as usize;
                                let x = (pos, word.clone());
                                let mut p: usize = sorted.len();
                                while p > 0 && sorted[p - 1].0 > pos
                                    invariant
                                        p <= sorted@.len(),
                                        forall|j: int| p <= j < sorted@.len() ==> #[trigger] sorted@[j].0 > pos,
                                    decreases p,
                                {
                                    p = p - 1;
                                }
                                let ghost s0 = pair_views(sorted@);
                                proof {
                                    assert forall|j: int| p <= j < s0.len() implies #[trigger] s0[j].0 > pos by {
                                        assert(s0[j].0 == sorted@[j].0);
                                    }
                                    if p > 0 {
                                        assert(s0[p - 1].0 == sorted@[p - 1].0);
                                    }
                                    lemma_insert_by_pos(s0, (pos, word@), p as int);
                                }
                                sorted.insert(p, x);
                                proof {
                                    let next = before + word_positions(word@, positions@.take(k + 1));
                                    assert(next =~= prev.push((pos, word@)));
                                    assert(next.drop_last() =~= prev);
                                    assert(pair_views(sorted@) =~= s0.take(p as int).push((pos, word@)) + s0.skip(p as int));
                                }
                            },
                            None => {
                                assert(before + word_positions(word@, positions@.take(k + 1)) =~= prev);
                            },
                        }
                        k = k + 1;
                    }
                    assert(positions@.take(positions@.len() as int) =~= positions@);
                },
                None => {},
            }
            i = i + 1;
            assert(index_pairs(entries@.take(i as int)) =~= before + match entries@[i - 1].1.array_of() {
                Some(a) => word_positions(entries@[i - 1].0@, a),
                None => seq![],
            });
        }
        assert(entries@.take(entries@.len() as int) =~= entries@);
        let ghost sv = pair_views(sorted@);
        let mut words: Vec<String> = Vec::new();
        let mut j: usize = 0;
        while j < sorted.len()
            invariant
                j <= sorted@.len(),
                sv == pair_views(sorted@),
                string_views(words@) == Seq::new(j as nat, |q: int| sv[q].1),
            decreases sorted.len() - j,
        {
            let ghost w0 = string_views(words@);
            let w = crate::text::owned(sorted[j].1.as_str());
            assert(w@ == sv[j as int].1);
            words.push(w);
            assert(string_views(words@) =~= w0.push(w@));
            j = j + 1;
            assert(string_views(words@) =~= Seq::new(j as nat, |q: int| sv[q].1));
        }
        crate::text::join(&words, " ")
    }

    /// Whether the abstract of `inverted` can be rebuilt (its cut falls between two
    /// characters).
    pub fn abstract_rebuildable(inverted: &JsonValue) -> (res: bool)
        ensures
            res == abstract_fits(*inverted),
    {
        match inverted.as_object() {
            Some(entries) => {
                let text = Self::index_words(entries);
                assert(abstract_words(*inverted) == abstract_words(JsonValue::Object(*entries)));
                crate::text::cut_ok(text.as_str(), ABSTRACT_LIMIT)
            },
            None => true,
        }
    }

    /// Rebuilds an abstract from OpenAlex's inverted index: the words in position
    /// order, joined by spaces, cut after 500 bytes with "..."; "No abstract
    /// available." where the index is not an object.
    pub fn rebuild_abstract(inverted: &JsonValue) -> (res: String)
        requires
            abstract_fits(*inverted),
        ensures
            res@ == abstract_text(*inverted),
    {
        match inverted.as_object() {
            Some(entries) => {
                let text = Self::index_words(entries);
                assert(abstract_words(*inverted) == abstract_words(JsonValue::Object(*entries)));
                if crate::text::bytes_of(text.as_str()) > ABSTRACT_LIMIT {
                    let mut cut = crate::text::cut_at_bytes(text.as_str(), ABSTRACT_LIMIT);
                    cut.append("...");
                    cut
                } else {
                    text
                }
            },
            None => crate::text::owned(NO_ABSTRACT),
        }
    }
}

// ── Works ──

/// The names of the authors of a work: `author.display_name` of each authorship that
/// has one, in order.
pub open spec fn author_names(a: Seq<JsonValue>) -> Seq<Seq<char>>
    decreases a.len(),
{
    if a.len() == 0 {
        seq![]
    } else {
        author_names(a.drop_last()) + match a.last().at("author"@).at("display_name"@).str_of() {
            Some(n) => seq![n],
            None => seq![],
        }
    }
}

/// Whether a work can be read: it has a string `id`, a string `title` and an array of
/// `authorships`.
pub open spec fn work_readable(w: JsonValue) -> bool {
    &&& w.at("id"@).str_of() is Some
    &&& w.at("title"@).str_of() is Some
    &&& w.at("authorships"@).array_of() is Some
}

/// The paper that a readable work describes: the DOI defaults to "N/A", the venue
/// (`primary_location.source.display_name`) to "Unknown", year and citation count to 0
/// (cut to 32 bits as `as u32` does); the URL is the DOI's resolver address.
pub open spec fn work_paper(w: JsonValue) -> PaperView {
    let doi = str_or(w.at("doi"@), "N/A"@);
    PaperView {
        id: w.at("id"@).str_of()->0,
        title: w.at("title"@).str_of()->0,
        authors: author_names(w.at("authorships"@).array_of()->0),
        year: u64_or(w.at("publication_year"@), 0) as u32,
        venue: str_or(w.at("primary_location"@).at("source"@).at("display_name"@), "Unknown"@),
        doi,
        abstract_text: abstract_text(w.at("abstract_inverted_index"@)),
        citation_count: u64_or(w.at("cited_by_count"@), 0) as u32,
        url: "https://doi.org/"@ + doi,
    }
}

/// Whether reading a work cannot fail on its abstract.
pub open spec fn work_fits(w: JsonValue) -> bool {
    work_readable(w) ==> abstract_fits(w.at("abstract_inverted_index"@))
}

/// The papers of the readable works of a list, in order.
pub open spec fn works_papers(a: Seq<JsonValue>) -> Seq<PaperView>
    decreases a.len(),
{
    if a.len() == 0 {
        seq![]
    } else {
        works_papers(a.drop_last()) + if work_readable(a.last()) {
            seq![work_paper(a.last())]
        } else {
            seq![]
        }
    }
}

/// The papers of a reply: those of its `results` array (none where it has none).
pub open spec fn results_papers(reply: JsonValue) -> Seq<PaperView> {
    match reply.at("results"@).array_of() {
        Some(a) => works_papers(a),
        None => seq![],
    }
}

/// Whether every work of a reply can be read without failing on its abstract.
pub open spec fn results_fit(reply: JsonValue) -> bool {
    match reply.at("results"@).array_of() {
        Some(a) => forall|i: int| 0 <= i < a.len() ==> work_fits(#[trigger] a[i]),
        None => true,
    }
}

impl OpenAlexBackend {
    /// Reads a work into a paper; `None` where it lacks an id, a title or its
    /// authorships.
    pub fn parse_work(w: &JsonValue) -> (res: Option<Paper>)
        requires
            work_fits(*w),
        ensures
            match res {
                Some(p) => work_readable(*w) && p@ == work_paper(*w),
                None => !work_readable(*w),
            },
    {
        let id = match w.get("id").as_str() {
            Some(s) => crate::text::owned(s),
            None => return None,
        };
        let doi = match w.get("doi").as_str() {
            Some(s) => crate::text::owned(s),
            None => crate::text::owned("N/A"),
        };
        let title = match w.get("title").as_str() {
            Some(s) => crate::text::owned(s),
            None => return None,
        };
        let year: u32 = match w.get("publication_year").as_u64() {
            Some(n) => n as u32,
            None => 0,
        };
        let citation_count: u32 = match w.get("cited_by_count").as_u64() {
            Some(n) => n as u32,
            None => 0,
        };
        let authorships = match w.get("authorships").as_array() {
            Some(a) => a,
            None => return None,
        };
        let mut authors: Vec<String> = Vec::new();
        let mut i: usize = 0;
        while i < authorships.len()
            invariant
                i <= authorships@.len(),
                string_views(authors@) == author_names(authorships@.take(i as int)),
            decreases authorships.len() - i,
        {
            assert(authorships@.take(i + 1).drop_last() =~= authorships@.take(i as int));
            let ghost a0 = string_views(authors@);
            match authorships[i].get("author").get("display_name").as_str() {
                Some(n) => {
                    authors.push(crate::text::owned(n));
                    assert(string_views(authors@) =~= a0.push(n@));
                },
                None => {},
            }
            i = i + 1;
        }
        assert(authorships@.take(authorships@.len() as int) =~= authorships@);
        let venue = match w.get("primary_location").get("source").get("display_name").as_str() {
            Some(s) => crate::text::owned(s),
            None => crate::text::owned("Unknown"),
        };
        let abstract_text = Self::rebuild_abstract(w.get("abstract_inverted_index"));
        let mut url = crate::text::owned("https://doi.org/");
        url.append(doi.as_str());
        let p = Paper { id, title, authors, year, venue, doi, abstract_text, citation_count, url };
        assert(p@ == work_paper(*w));
        Some(p)
    }

    /// Whether every work of a reply can be read without failing on its abstract.
    pub fn results_readable(reply: &JsonValue) -> (res: bool)
        ensures
            res == results_fit(*reply),
    {
        let works = match reply.get("results").as_array() {
            Some(a) => a,
            None => return true,
        };
        let mut i: usize = 0;
        while i < works.len()
            invariant
                i <= works@.len(),
                reply.at("results"@).array_of() == Some(works@),
                forall|k: int| 0 <= k < i ==> work_fits(#[trigger] works@[k]),
            decreases works.len() - i,
        {
            let w = &works[i];
            let readable = w.get("id").as_str().is_some() && w.get("title").as_str().is_some() && w.get(
                "authorships",
            ).as_array().is_some();
            if readable && !Self::abstract_rebuildable(w.get("abstract_inverted_index")) {
                assert(!work_fits(works@[i as int]));
                assert(!results_fit(*reply)) by {
                    let a = reply.at("results"@).array_of()->0;
                    assert(a[i as int] == works@[i as int]);
                }
                return false;
            }
            i = i + 1;
        }
        true
    }

    /// The papers of a search reply: each readable work of its `results`, in order.
    pub fn parse_results(reply: &JsonValue) -> (res: Vec<Paper>)
        requires
            results_fit(*reply),
        ensures
            crate::types::paper_views(res@) == results_papers(*reply),
    {
        let mut papers: Vec<Paper> = Vec::new();
        let works = match reply.get("results").as_array() {
            Some(a) => a,
            None => {
                assert(crate::types::paper_views(papers@) =~= Seq::<PaperView>::empty());
                return papers;
            },
        };
        assert(forall|k: int| 0 <= k < works@.len() ==> work_fits(#[trigger] works@[k])) by {
            let a = reply.at("results"@).array_of()->0;
            assert(a == works@);
        }
        let mut i: usize = 0;
        while i < works.len()
            invariant
                i <= works@.len(),
                reply.at("results"@).array_of() == Some(works@),
                forall|k: int| 0 <= k < works@.len() ==> work_fits(#[trigger] works@[k]),
                crate::types::paper_views(papers@) == works_papers(works@.take(i as int)),
            decreases works.len() - i,
        {
            assert(works@.take(i + 1).drop_last() =~= works@.take(i as int));
            let ghost p0 = crate::types::paper_views(papers@);
            assert(work_fits(works@[i as int]));
            match Self::parse_work(&works[i]) {
                Some(p) => {
                    let ghost pv = p@;
                    papers.push(p);
                    assert(crate::types::paper_views(papers@) =~= p0.push(pv));
                },
                None => {},
            }
            i = i + 1;
        }
        assert(works@.take(works@.len() as int) =~= works@);
        papers
    }
}

} // verus!
