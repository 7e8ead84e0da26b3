//! The staged search: broad searches over the sub-queries of a plan, new keywords
//! asked of the model, citation expansion, and the merging of the papers found.
use crate::json::{json_parsed, parse_json, string_elems, JsonValue, ParseError};
use crate::text::{byte_prefix, cut_fits, dec, joined, lowercase, string_views};
use crate::types::{paper_views, Paper, PaperView};
use vstd::prelude::*;

verus! {

/// The staged search.
pub struct SearchEngine;

/// The system prompt that asks for keywords on missing sub-topics.
pub const PHASE2_SYSTEM: &'static str = "你是一个学术文献检索专家。分析已有论文列表，找出遗漏的研究子主题，生成1-2个新的搜索关键词。输出JSON: {\"new_queries\": [\"query1\", \"query2\"]}";

/// The key under which the staged search counts a paper once: its DOI where it has
/// one (not empty and not "N/A"), else its lower-cased title.
pub open spec fn dedup_key(p: PaperView) -> Seq<char> {
    if p.doi.len() > 0 && p.doi != "N/A"@ {
        p.doi
    } else {
        lowercase(p.title)
    }
}

/// The keys of a list of papers.
pub open spec fn dedup_keys(ps: Seq<PaperView>) -> Seq<Seq<char>> {
    Seq::new(ps.len(), |i: int| dedup_key(ps[i]))
}

/// The papers of `new` whose key is not in `seen`, in order (keys of `new` are not
/// added to `seen`).
pub open spec fn unseen(new: Seq<PaperView>, seen: Seq<Seq<char>>) -> Seq<PaperView>
    decreases new.len(),
{
    if new.len() == 0 {
        seq![]
    } else {
        unseen(new.drop_last(), seen) + if seen.contains(dedup_key(new.last())) {
            seq![]
        } else {
            seq![new.last()]
        }
    }
}

/// The list and the seen keys after adding, in order, each paper of `new` whose key
/// has not been seen yet, and recording its key.
pub open spec fn gather(all: Seq<PaperView>, seen: Seq<Seq<char>>, new: Seq<PaperView>) -> (Seq<PaperView>, Seq<Seq<char>>)
    decreases new.len(),
{
    if new.len() == 0 {
        (all, seen)
    } else {
        let (l, s) = gather(all, seen, new.drop_last());
        let k = dedup_key(new.last());
        if s.contains(k) {
            (l, s)
        } else {
            (l.push(new.last()), s.push(k))
        }
    }
}

/// The line of a paper in the prompt for new keywords: title, year, and the first 200
/// bytes of the abstract.
pub open spec fn summary_line(p: PaperView) -> Seq<char> {
    "- "@ + p.title + " ("@ + dec(p.year as nat) + "): "@ + byte_prefix(p.abstract_text, 200)
}

/// The number of papers shown in the prompt for new keywords (at most 30).
pub open spec fn shown(n: nat) -> nat {
    if n < 30 {
        n
    } else {
        30
    }
}

/// The prompt that asks for keywords on sub-topics that the papers miss.
pub open spec fn phase2_prompt_text(original: Seq<char>, papers: Seq<PaperView>) -> Seq<char> {
    "原始查询: "@ + original + "\n已有论文(部分):\n"@ + joined(
        Seq::new(shown(papers.len()), |i: int| summary_line(papers[i])),
        "\n"@,
    ) + "\n请找出遗漏的子主题，生成新的搜索关键词。"@
}

/// Whether the abstracts shown in the prompt can be cut at byte 200.
pub open spec fn phase2_fits(papers: Seq<PaperView>) -> bool {
    forall|i: int| 0 <= i < shown(papers.len()) ==> cut_fits(#[trigger] papers[i].abstract_text, 200)
}

/// The keywords of a reply: the strings of its `new_queries` array.
pub open spec fn new_queries(reply: JsonValue) -> Seq<Seq<char>> {
    match reply.at("new_queries"@).array_of() {
        Some(a) => string_elems(a),
        None => seq![],
    }
}

/// A fetch of the citation expansion.
#[derive(Debug)]
pub enum CitationFetch {
    /// The works that the paper cites.
    References { paper_id: String, max_results: usize },
    /// The works that cite the paper.
    Citing { paper_id: String, max_results: usize },
}

/// The fetches of the citation expansion of `papers`: for each of the first ten, its
/// references, and for those cited more than 100 times also the papers citing them,
/// ten of each.
pub open spec fn expansion_plan(papers: Seq<PaperView>) -> Seq<(bool, Seq<char>)>
    decreases papers.len(),
{
    if papers.len() == 0 {
        seq![]
    } else {
        let n = papers.len() - 1;
        let p = papers.last();
        expansion_plan(papers.drop_last()) + if n >= 10 {
            seq![]
        } else if p.citation_count > 100 {
            seq![(false, p.id), (true, p.id)]
        } else {
            seq![(false, p.id)]
        }
    }
}

/// A fetch by kind (citing or not) and paper id, each for ten works.
pub open spec fn fetch_view(f: CitationFetch) -> (bool, Seq<char>) {
    match f {
        CitationFetch::References { paper_id, .. } => (false, paper_id@),
        CitationFetch::Citing { paper_id, .. } => (true, paper_id@),
    }
}

/// The limit of a fetch.
pub open spec fn fetch_limit(f: CitationFetch) -> usize {
    match f {
        CitationFetch::References { max_results, .. } => max_results,
        CitationFetch::Citing { max_results, .. } => max_results,
    }
}

/// The key of a paper.
fn key_of(p: &Paper) -> (res: String)
    ensures
        res@ == dedup_key(p@),
{
    if !p.doi.as_str().is_empty() && !crate::text::str_eq(p.doi.as_str(), "N/A") {
        crate::text::owned(p.doi.as_str())
    } else {
        crate::text::to_lowercase(p.title.as_str())
    }
}

impl SearchEngine {
    /// Adds to `all` each paper of `papers` whose key (DOI, else lower-cased title) has
    /// not been seen, recording its key: one step of the broad search.
    pub fn phase1_absorb(all: &mut Vec<Paper>, seen: &mut Vec<String>, papers: Vec<Paper>)
        ensures
            (paper_views(final(all)@), string_views(final(seen)@)) == gather(
                paper_views(old(all)@),
                string_views(old(seen)@),
                paper_views(papers@),
            ),
    {
        let ghost all0 = paper_views(all@);
        let ghost seen0 = string_views(seen@);
        let ghost new = paper_views(papers@);
        let mut rest = papers;
        let total: usize = rest.len();
        let mut i: usize = 0;
        assert(new.skip(0) =~= new);
        while rest.len() > 0
            invariant
                i <= new.len(),
                rest@.len() + i == new.len(),
                new.len() == total,
                paper_views(rest@) == new.skip(i as int),
                (paper_views(all@), string_views(seen@)) == gather(all0, seen0, new.take(i as int)),
            decreases rest.len(),
        {
            assert(paper_views(rest@)[0] == rest@[0]@);
            let ghost r0 = paper_views(rest@);
            let p = rest.remove(0);
            assert(p@ == new[i as int]);
            assert(new.take(i + 1).drop_last() =~= new.take(i as int));
            assert(paper_views(rest@) =~= r0.drop_first());
            assert(r0.drop_first() =~= new.skip(i + 1));
            let key = key_of(&p);
            let ghost l0 = paper_views(all@);
            let ghost s0 = string_views(seen@);
            if !crate::tools::contains_string(seen, key.as_str()) {
                let ghost k = key@;
                let ghost pv = p@;
                all.push(p);
                seen.push(key);
                assert(paper_views(all@) =~= l0.push(pv));
                assert(string_views(seen@) =~= s0.push(k));
            }
            i = i + 1;
        }
        assert(new.take(i as int) =~= new);
    }

    /// Adds to `existing` each paper of `new` whose key (DOI, else lower-cased title)
    /// is not the key of a paper that `existing` held before; papers of `new` are not
    /// checked against each other.
    pub fn merge_dedup(existing: &mut Vec<Paper>, new: Vec<Paper>)
        ensures
            paper_views(final(existing)@) == paper_views(old(existing)@) + unseen(
                paper_views(new@),
                dedup_keys(paper_views(old(existing)@)),
            ),
    {
        let ghost old_views = paper_views(existing@);
        let ghost keys = dedup_keys(old_views);
        let mut seen: Vec<String> = Vec::new();
        let mut j: usize = 0;
        while j < existing.len()
            invariant
                j <= existing@.len(),
                old_views == paper_views(existing@),
                keys == dedup_keys(old_views),
                string_views(seen@) == keys.take(j as int),
            decreases existing.len() - j,
        {
            let ghost s0 = string_views(seen@);
            let k = key_of(&existing[j]);
            seen.push(k);
            assert(string_views(seen@) =~= s0.push(keys[j as int]));
            j = j + 1;
            assert(string_views(seen@) =~= keys.take(j as int));
        }
        assert(keys.take(existing@.len() as int) =~= keys);
        let ghost nv = paper_views(new@);
        let mut rest = new;
        let total: usize = rest.len();
        let mut i: usize = 0;
        assert(nv.skip(0) =~= nv);
        assert(old_views + unseen(nv.take(0), keys) =~= old_views);
        while rest.len() > 0
            invariant
                i <= nv.len(),
                rest@.len() + i == nv.len(),
                nv.len() == total,
                paper_views(rest@) == nv.skip(i as int),
                string_views(seen@) == keys,
                paper_views(existing@) == old_views + unseen(nv.take(i as int), keys),
            decreases rest.len(),
        {
            assert(paper_views(rest@)[0] == rest@[0]@);
            let ghost r0 = paper_views(rest@);
            let p = rest.remove(0);
            assert(p@ == nv[i as int]);
            assert(nv.take(i + 1).drop_last() =~= nv.take(i as int));
            assert(paper_views(rest@) =~= r0.drop_first());
            assert(r0.drop_first() =~= nv.skip(i + 1));
            let key = key_of(&p);
            let ghost e0 = paper_views(existing@);
            let ghost pv = p@;
            if !crate::tools::contains_string(&seen, key.as_str()) {
                existing.push(p);
                assert(paper_views(existing@) =~= e0.push(pv));
            }
            i = i + 1;
            assert(paper_views(existing@) =~= old_views + unseen(nv.take(i as int), keys));
        }
        assert(nv.take(i as int) =~= nv);
    }

    /// Whether the prompt for new keywords can be built (each abstract shown can be
    /// cut at byte 200).
    pub fn phase2_ready(papers: &[Paper]) -> (res: bool)
        ensures
            res == phase2_fits(paper_views(papers@)),
    {
        let n: usize = if papers.len() < 30 {
            papers.len()
        } else {
            30
        };
        let mut i: usize = 0;
        while i < n
            invariant
                i <= n,
                n == shown(papers@.len()),
                forall|k: int| 0 <= k < i ==> cut_fits(#[trigger] paper_views(papers@)[k].abstract_text, 200),
            decreases n - i,
        {
            if !crate::text::cut_ok(papers[i].abstract_text.as_str(), 200) {
                assert(!cut_fits(paper_views(papers@)[i as int].abstract_text, 200));
                return false;
            }
            i = i + 1;
        }
        true
    }

    /// The prompt that asks the model for keywords on the sub-topics that the first 30
    /// papers miss.
    pub fn phase2_prompt(original: &str, papers: &[Paper]) -> (res: String)
        requires
            phase2_fits(paper_views(papers@)),
        ensures
            res@ == phase2_prompt_text(original@, paper_views(papers@)),
    {
        let ghost pv = paper_views(papers@);
        let n: usize = if papers.len() < 30 {
            papers.len()
        } else {
            30
        };
        let ghost lines = Seq::new(n as nat, |k: int| summary_line(pv[k]));
        let mut parts: Vec<String> = Vec::new();
        let mut i: usize = 0;
        while i < n
            invariant
                i <= n,
                n == shown(pv.len()),
                pv == paper_views(papers@),
                phase2_fits(pv),
                lines == Seq::new(n as nat, |k: int| summary_line(pv[k])),
                string_views(parts@) == lines.take(i as int),
            decreases n - i,
        {
            let p = &papers[i];
            assert(cut_fits(pv[i as int].abstract_text, 200));
            let mut line = crate::text::owned("- ");
            line.append(p.title.as_str());
            line.append(" (");
            crate::text::push_dec(&mut line, p.year as u64);
            line.append("): ");
            let snippet = crate::text::cut_at_bytes(p.abstract_text.as_str(), 200);
            line.append(snippet.as_str());
            assert(line@ =~= summary_line(pv[i as int]));
            let ghost before = string_views(parts@);
            parts.push(line);
            assert(string_views(parts@) =~= before.push(line@));
            i = i + 1;
            assert(string_views(parts@) =~= lines.take(i as int));
        }
        assert(lines.take(n as int) =~= lines);
        let body = crate::text::join(&parts, "\n");
        let mut u = crate::text::owned("原始查询: ");
        u.append(original);
        u.append("\n已有论文(部分):\n");
        u.append(body.as_str());
        u.append("\n请找出遗漏的子主题，生成新的搜索关键词。");
        assert(u@ =~= phase2_prompt_text(original@, pv));
        u
    }

    /// Reads the new keywords of the model's reply; fails exactly where the reply is
    /// not JSON.
    pub fn parse_new_queries(content: &str) -> (res: Result<Vec<String>, ParseError>)
        ensures
            res is Ok <==> json_parsed(content@) is Some,
            res matches Ok(qs) ==> string_views(qs@) == new_queries(json_parsed(content@)->0),
    {
        let json = match parse_json(content) {
            Ok(v) => v,
            Err(e) => return Err(e),
        };
        match json.get("new_queries").as_array() {
            Some(a) => Ok(crate::json::collect_strings(a)),
            None => {
                let v: Vec<String> = Vec::new();
                assert(string_views(v@) =~= Seq::<Seq<char>>::empty());
                Ok(v)
            },
        }
    }

    /// The fetches of the citation expansion of the top papers: for each of the first
    /// ten, its references, and for those cited more than 100 times the papers citing
    /// them too, ten works each.
    pub fn citation_expansion(top_papers: &[Paper]) -> (res: Vec<CitationFetch>)
        ensures
            Seq::new(res@.len(), |i: int| fetch_view(res@[i])) == expansion_plan(paper_views(top_papers@)),
            forall|i: int| 0 <= i < res@.len() ==> fetch_limit(#[trigger] res@[i]) == 10,
    {
        let ghost pv = paper_views(top_papers@);
        let mut res: Vec<CitationFetch> = Vec::new();
        let mut i: usize = 0;
        while i < top_papers.len()
            invariant
                i <= top_papers@.len(),
                pv == paper_views(top_papers@),
                Seq::new(res@.len(), |k: int| fetch_view(res@[k])) == expansion_plan(pv.take(i as int)),
                forall|k: int| 0 <= k < res@.len() ==> fetch_limit(#[trigger] res@[k]) == 10,
            decreases top_papers.len() - i,
        {
            let ghost r0 = Seq::new(res@.len(), |k: int| fetch_view(res@[k]));
            assert(pv.take(i + 1).drop_last() =~= pv.take(i as int));
            let p = &top_papers[i];
            if i < 10 {
                res.push(CitationFetch::References { paper_id: p.id.clone(), max_results: 10 });
                if p.citation_count > 100 {
                    res.push(CitationFetch::Citing { paper_id: p.id.clone(), max_results: 10 });
                }
            }
            i = i + 1;
            assert(Seq::new(res@.len(), |k: int| fetch_view(res@[k])) =~= expansion_plan(pv.take(i as int)));
        }
        assert(pv.take(top_papers@.len() as int) =~= pv);
        res
    }
}

// ── What merging guarantees ──

/// Papers whose keys are all known are all skipped.
proof fn lemma_unseen_none(new: Seq<PaperView>, seen: Seq<Seq<char>>)
    requires
        forall|i: int| 0 <= i < new.len() ==> seen.contains(dedup_key(#[trigger] new[i])),
    ensures
        unseen(new, seen) == Seq::<PaperView>::empty(),
    decreases new.len(),
{
    if new.len() > 0 {
        let d = new.drop_last();
        assert forall|i: int| 0 <= i < d.len() implies seen.contains(dedup_key(#[trigger] d[i])) by {
            assert(d[i] == new[i]);
        }
        lemma_unseen_none(d, seen);
        assert(seen.contains(dedup_key(new[new.len() - 1])));
    }
}

/// A paper with an unknown key is kept.
proof fn lemma_unseen_keeps(new: Seq<PaperView>, seen: Seq<Seq<char>>, i: int)
    requires
        0 <= i < new.len(),
        !seen.contains(dedup_key(new[i])),
    ensures
        unseen(new, seen).contains(new[i]),
    decreases new.len(),
{
    let d = new.drop_last();
    if i == new.len() - 1 {
        let u = unseen(new, seen);
        assert(u[u.len() - 1] == new[i]);
    } else {
        assert(d[i] == new[i]);
        lemma_unseen_keeps(d, seen, i);
        let u = unseen(d, seen);
        let k = choose|k: int| 0 <= k < u.len() && u[k] == new[i];
        assert(unseen(new, seen)[k] == u[k]);
    }
}

/// Merging the same papers a second time adds nothing: each paper of `new` either has
/// the key of a paper held before the first merge, or was added by it.
pub proof fn lemma_merge_dedup_again(existing: Seq<PaperView>, new: Seq<PaperView>)
    ensures
        unseen(new, dedup_keys(existing + unseen(new, dedup_keys(existing)))) == Seq::<PaperView>::empty(),
{
    let k1 = dedup_keys(existing);
    let merged = existing + unseen(new, k1);
    let k2 = dedup_keys(merged);
    assert forall|i: int| 0 <= i < new.len() implies k2.contains(dedup_key(#[trigger] new[i])) by {
        if k1.contains(dedup_key(new[i])) {
            let j = choose|j: int| 0 <= j < k1.len() && k1[j] == dedup_key(new[i]);
            assert(merged[j] == existing[j]);
            assert(k2[j] == dedup_key(new[i]));
        } else {
            lemma_unseen_keeps(new, k1, i);
            let u = unseen(new, k1);
            let m = choose|m: int| 0 <= m < u.len() && u[m] == new[i];
            assert(merged[existing.len() + m] == new[i]);
            assert(k2[existing.len() + m] == dedup_key(new[i]));
        }
    }
    lemma_unseen_none(new, k2);
}

/// The broad search counts each key once: the keys of the papers it gathers are
/// distinct and recorded, where they were so before.
pub proof fn lemma_gather_distinct(all: Seq<PaperView>, seen: Seq<Seq<char>>, new: Seq<PaperView>)
    requires
        seen.no_duplicates(),
        forall|i: int| 0 <= i < all.len() ==> seen.contains(dedup_key(#[trigger] all[i])),
        forall|i: int, j: int| 0 <= i < j < all.len() ==> dedup_key(#[trigger] all[i]) != dedup_key(#[trigger] all[j]),
    ensures
        gather(all, seen, new).1.no_duplicates(),
        forall|i: int| 0 <= i < gather(all, seen, new).0.len() ==> gather(all, seen, new).1.contains(
            dedup_key(#[trigger] gather(all, seen, new).0[i]),
        ),
        forall|i: int, j: int|
            0 <= i < j < gather(all, seen, new).0.len() ==> dedup_key(#[trigger] gather(all, seen, new).0[i]) != dedup_key(
                #[trigger] gather(all, seen, new).0[j],
            ),
    decreases new.len(),
{
    if new.len() > 0 {
        lemma_gather_distinct(all, seen, new.drop_last());
        let (l, s) = gather(all, seen, new.drop_last());
        let p = new.last();
        let k = dedup_key(p);
        if !s.contains(k) {
            let l2 = l.push(p);
            let s2 = s.push(k);
            assert forall|i: int| 0 <= i < l2.len() implies s2.contains(dedup_key(#[trigger] l2[i])) by {
                if i < l.len() {
                    assert(l2[i] == l[i]);
                    let q = choose|q: int| 0 <= q < s.len() && s[q] == dedup_key(l[i]);
                    assert(s2[q] == s[q]);
                } else {
                    assert(s2[s.len() as int] == k);
                }
            }
            assert forall|i: int, j: int| 0 <= i < j < l2.len() implies dedup_key(#[trigger] l2[i]) != dedup_key(#[trigger] l2[j]) by {
                if j == l.len() {
                    assert(l2[i] == l[i]);
                    assert(s.contains(dedup_key(l[i])));
                } else {
                    assert(l2[i] == l[i] && l2[j] == l[j]);
                }
            }
            assert forall|i: int, j: int| 0 <= i < s2.len() && 0 <= j < s2.len() && i != j implies s2[i] != s2[j] by {
                if i == s.len() as int {
                    assert(s[j] == s2[j]);
                } else if j == s.len() as int {
                    assert(s[i] == s2[i]);
                } else {
                    assert(s[i] == s2[i] && s[j] == s2[j]);
                }
            }
        }
    }
}

} // verus!
