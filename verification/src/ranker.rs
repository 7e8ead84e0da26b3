//! Ranking: keyword pre-filtering, reading the model's relevance scores, and
//! splitting scored papers into tiers.
use crate::json::{json_parsed, parse_json, JsonValue, ParseError};
use crate::sort::{stable_sort, stable_sorted, SortKey};
use crate::text::{contains_seq, dec, joined, lowercase, prefix, string_views, words};
use crate::tools::{str_or, u64_or};
use crate::query_decomposer::QueryPlan;
use crate::types::{paper_views, Paper, PaperView, QueryConstraints, ScoredPaper, ScoredPaperView, TieredResults};
use vstd::prelude::*;

verus! {

impl SortKey for ScoredPaper {
    open spec fn key(&self) -> u64 {
        self.score as u64
    }

    fn sort_key(&self) -> (res: u64) {
        self.score as u64
    }
}

/// Ranking of papers against a query.
pub struct Ranker;

/// Whether a scored paper belongs to the high tier (score 7 or more).
pub open spec fn is_high(s: ScoredPaper) -> bool {
    s.score >= 7
}

/// Whether a scored paper belongs to the partial tier (score 4 to 6).
pub open spec fn is_partial(s: ScoredPaper) -> bool {
    4 <= s.score < 7
}

/// The words of the sub-queries, lowercased: the keywords of the pre-filter.
pub open spec fn keywords(queries: Seq<Seq<char>>) -> Seq<Seq<char>>
    decreases queries.len(),
{
    if queries.len() == 0 {
        seq![]
    } else {
        keywords(queries.drop_last()) + words(queries.last()).map_values(|w: Seq<char>| lowercase(w))
    }
}

/// Whether a paper passes the pre-filter: within the year range, if any, and with a
/// keyword in its lowercased title or abstract.
pub open spec fn passes_filter(p: Paper, kws: Seq<Seq<char>>, year_range: Option<(u32, u32)>) -> bool {
    &&& (year_range matches Some((start, end)) ==> start <= p.year <= end)
    &&& exists|i: int| 0 <= i < kws.len() && contains_seq(lowercase(p.title@) + " "@ + lowercase(p.abstract_text@), #[trigger] kws[i])
}

/// The sequence of relevance scores that a reply's `scores` list assigns to papers of
/// `papers`: one per entry whose index (0 by default) names a paper, with the entry's
/// score (5 by default) kept in 1..10 when `clamp` holds, else cut to 8 bits, and its
/// rationale ("" by default).
pub open spec fn scored_entries(entries: Seq<JsonValue>, papers: Seq<PaperView>, clamp: bool) -> Seq<ScoredPaperView>
    decreases entries.len(),
{
    if entries.len() == 0 {
        seq![]
    } else {
        let rest = scored_entries(entries.drop_last(), papers, clamp);
        let e = entries.last();
        let idx = u64_or(e.at("index"@), 0) as usize;
        if idx < papers.len() {
            rest.push(ScoredPaperView {
                paper: papers[idx as int],
                score: entry_score(e, clamp),
                rationale: str_or(e.at("rationale"@), ""@),
            })
        } else {
            rest
        }
    }
}

/// The score of an entry: `score` (5 by default), kept in 1..10 or cut to 8 bits.
pub open spec fn entry_score(e: JsonValue, clamp: bool) -> u8 {
    let s = u64_or(e.at("score"@), 5);
    if clamp {
        if s > 10 {
            10
        } else if s < 1 {
            1
        } else {
            s as u8
        }
    } else {
        s as u8
    }
}

/// The scores a reply text assigns: `Err` where the text is not JSON, else the
/// entries of its `scores` list (none where there is no such list).
pub open spec fn reply_scores_ok(
    res: Result<Vec<ScoredPaper>, ParseError>,
    content: Seq<char>,
    papers: Seq<PaperView>,
    clamp: bool,
) -> bool {
    match json_parsed(content) {
        None => res is Err,
        Some(j) => res matches Ok(v) && crate::types::scored_views(v@) == match j.at("scores"@).array_of() {
            Some(a) => scored_entries(a, papers, clamp),
            None => seq![],
        },
    }
}

/// Reads the scores of a reply.
pub fn read_scores(content: &str, papers: &[Paper], clamp: bool) -> (res: Result<Vec<ScoredPaper>, ParseError>)
    ensures
        reply_scores_ok(res, content@, paper_views(papers@), clamp),
{
    let json = match parse_json(content) {
        Ok(v) => v,
        Err(e) => return Err(e),
    };
    let mut scored: Vec<ScoredPaper> = Vec::new();
    let entries = match json.get("scores").as_array() {
        Some(a) => a,
        None => {
            assert(crate::types::scored_views(scored@) =~= seq![]);
            return Ok(scored);
        },
    };
    let ghost pv = paper_views(papers@);
    let mut i: usize = 0;
    while i < entries.len()
        invariant
            i <= entries@.len(),
            pv == paper_views(papers@),
            crate::types::scored_views(scored@) == scored_entries(entries@.take(i as int), pv, clamp),
        decreases entries.len() - i,
    {
        let e = &entries[i];
        assert(entries@.take(i + 1).drop_last() =~= entries@.take(i as int));
        assert(entries@.take(i + 1).last() == *e);
        let idx: usize = match e.get("index").as_u64() {
            Some(n) => n as usize,
            None => 0,
        };
        if idx < papers.len() {
            let raw: u64 = match e.get("score").as_u64() {
                Some(n) => n,
                None => 5,
            };
            let score: u8 = if clamp {
                if raw > 10 {
                    10
                } else if raw < 1 {
                    1
                } else {
                    raw as u8
                }
            } else {
                raw as u8
            };
            let rationale = match e.get("rationale").as_str() {
                Some(r) => crate::text::owned(r),
                None => crate::text::owned(""),
            };
            let ghost before = crate::types::scored_views(scored@);
            let sp = ScoredPaper { paper: papers[idx].clone(), score, rationale };
            scored.push(sp);
            assert(crate::types::scored_views(scored@) =~= before.push(sp@));
        }
        i = i + 1;
    }
    assert(entries@.take(entries@.len() as int) =~= entries@);
    Ok(scored)
}

/// The entry of a paper in a scoring prompt.
pub open spec fn score_entry(p: PaperView, i: nat) -> Seq<char> {
    "["@ + dec(i) + "] Title: "@ + p.title + "\nAuthors: "@ + (if p.authors.len() > 0 {
        p.authors[0]
    } else {
        "Unknown"@
    }) + "\nYear: "@ + dec(p.year as nat) + "\nVenue: "@ + p.venue + "\nAbstract: "@ + p.abstract_text
}

/// The scoring prompt of a batch.
pub open spec fn score_prompt_text(papers: Seq<PaperView>, query: Seq<char>) -> Seq<char> {
    "原始查询: "@ + query + "\n论文列表:\n"@ + joined(Seq::new(papers.len(), |i: int| score_entry(papers[i], i as nat)), "\n\n"@)
}

/// The system prompt of relevance scoring.
pub const SCORE_SYSTEM: &'static str = "你对每篇论文与查询的相关性打分1-10。输出JSON格式:\n{\"scores\": [{\"index\": 0, \"score\": 8, \"rationale\": \"理由\"}, ...]}";

/// The number of papers scored per model call.
pub const SCORE_BATCH_SIZE: usize = 20;

/// The keyword texts of the sub-queries of a plan.
pub open spec fn plan_queries(plan: QueryPlan) -> Seq<Seq<char>> {
    Seq::new(plan.sub_queries@.len(), |i: int| plan.sub_queries@[i].query@)
}

impl Ranker {
    /// Keeps the papers within the year range of the plan's constraints, if any, whose
    /// lowercased title or abstract contains a lowercased word of a sub-query.
    pub fn fast_filter(papers: Vec<Paper>, plan: &QueryPlan) -> (res: Vec<Paper>)
        ensures
            res@ == papers@.filter(|p: Paper| passes_filter(p, keywords(plan_queries(*plan)), plan.constraints.year_range)),
    {
        let mut queries: Vec<String> = Vec::new();
        let mut i: usize = 0;
        while i < plan.sub_queries.len()
            invariant
                i <= plan.sub_queries@.len(),
                string_views(queries@) == plan_queries(*plan).take(i as int),
            decreases plan.sub_queries.len() - i,
        {
            let ghost q0 = string_views(queries@);
            queries.push(plan.sub_queries[i].query.clone());
            assert(string_views(queries@) =~= q0.push(plan.sub_queries@[i as int].query@));
            i = i + 1;
            assert(string_views(queries@) =~= plan_queries(*plan).take(i as int));
        }
        assert(plan_queries(*plan).take(plan.sub_queries@.len() as int) =~= plan_queries(*plan));
        Self::filter_by_keywords(papers, &queries, &plan.constraints)
    }

    /// Keeps the papers within the year range of the constraints, if any, whose
    /// lowercased title or abstract contains a lowercased word of a query.
    fn filter_by_keywords(papers: Vec<Paper>, sub_queries: &Vec<String>, constraints: &QueryConstraints) -> (res: Vec<Paper>)
        ensures
            res@ == papers@.filter(|p: Paper| passes_filter(p, keywords(string_views(sub_queries@)), constraints.year_range)),
    {
        let mut kws: Vec<String> = Vec::new();
        let mut q: usize = 0;
        while q < sub_queries.len()
            invariant
                q <= sub_queries@.len(),
                string_views(kws@) == keywords(string_views(sub_queries@.take(q as int))),
            decreases sub_queries.len() - q,
        {
            let ws = crate::text::split_ws(sub_queries[q].as_str());
            let ghost k0 = string_views(kws@);
            let mut j: usize = 0;
            while j < ws.len()
                invariant
                    j <= ws@.len(),
                    string_views(kws@) == k0 + string_views(ws@).take(j as int).map_values(|w: Seq<char>| lowercase(w)),
                decreases ws.len() - j,
            {
                let lw = crate::text::to_lowercase(ws[j].as_str());
                let ghost kb = string_views(kws@);
                let ghost m0 = string_views(ws@).take(j as int).map_values(|w: Seq<char>| lowercase(w));
                kws.push(lw);
                assert(string_views(kws@) =~= kb.push(lw@));
                assert(string_views(ws@).take(j + 1).map_values(|w: Seq<char>| lowercase(w)) =~= m0.push(lowercase(ws@[j as int]@)));
                j = j + 1;
                assert(string_views(kws@) =~= k0 + string_views(ws@).take(j as int).map_values(|w: Seq<char>| lowercase(w)));
            }
            q = q + 1;
            proof {
                let qs = string_views(sub_queries@.take(q as int));
                assert(qs.drop_last() =~= string_views(sub_queries@.take(q - 1)));
                assert(string_views(ws@).take(ws@.len() as int) =~= string_views(ws@));
            }
        }
        assert(sub_queries@.take(sub_queries@.len() as int) =~= sub_queries@);
        let ghost kv = string_views(kws@);
        let ghost pred = |p: Paper| passes_filter(p, kv, constraints.year_range);
        let mut res: Vec<Paper> = Vec::new();
        let mut rest = papers;
        let ghost input = rest@;
        assert(input.len() == rest.len());
        let mut n: usize = 0;
        assert(input.skip(0) =~= input);
        assert(input.take(0).filter(pred) =~= Seq::<Paper>::empty()) by {
            reveal_with_fuel(Seq::filter, 1);
        }
        while rest.len() > 0
            invariant
                n <= input.len(),
                input.len() <= usize::MAX,
                rest@ == input.skip(n as int),
                res@ == input.take(n as int).filter(pred),
                kv == string_views(kws@),
                pred == (|p: Paper| passes_filter(p, kv, constraints.year_range)),
            decreases rest.len(),
        {
            let p = rest.remove(0);
            assert(p == input[n as int]);
            assert(rest@ =~= input.skip(n + 1));
            let keep = Self::keep_paper(&p, &kws, constraints);
            assert(input.take(n + 1).drop_last() =~= input.take(n as int));
            proof {
                reveal_with_fuel(Seq::filter, 1);
            }
            let ghost r0 = res@;
            let ghost pv = p;
            if keep {
                res.push(p);
            }
            proof {
                assert(input.take(n + 1).last() == pv);
                assert(pred(pv) == keep);
                if keep {
                    assert(res@ =~= r0.push(pv));
                }
            }
            n = n + 1;
        }
        assert(input.take(n as int) =~= input);
        res
    }

    /// Whether a paper passes the pre-filter with the given (lowercased) keywords.
    fn keep_paper(p: &Paper, kws: &Vec<String>, constraints: &QueryConstraints) -> (res: bool)
        ensures
            res == passes_filter(*p, string_views(kws@), constraints.year_range),
    {
        if let Some((start, end)) = constraints.year_range {
            if p.year < start || p.year > end {
                return false;
            }
        }
        let mut text = crate::text::to_lowercase(p.title.as_str());
        text.append(" ");
        let lab = crate::text::to_lowercase(p.abstract_text.as_str());
        text.append(lab.as_str());
        let mut i: usize = 0;
        while i < kws.len()
            invariant
                i <= kws@.len(),
                constraints.year_range matches Some((s, e)) ==> s <= p.year <= e,
                text@ == lowercase(p.title@) + " "@ + lowercase(p.abstract_text@),
                forall|k: int| 0 <= k < i ==> !contains_seq(text@, #[trigger] string_views(kws@)[k]),
            decreases kws.len() - i,
        {
            if crate::text::contains_str(text.as_str(), kws[i].as_str()) {
                assert(contains_seq(text@, string_views(kws@)[i as int]));
                return true;
            }
            i = i + 1;
        }
        false
    }

    /// The scoring prompt for a batch of papers.
    pub fn score_prompt(papers: &[Paper], original_query: &str) -> (res: String)
        ensures
            res@ == score_prompt_text(paper_views(papers@), original_query@),
    {
        let ghost pv = paper_views(papers@);
        let mut entries: Vec<String> = Vec::new();
        let mut i: usize = 0;
        while i < papers.len()
            invariant
                i <= papers@.len(),
                pv == paper_views(papers@),
                string_views(entries@) == Seq::new(pv.len(), |k: int| score_entry(pv[k], k as nat)).take(i as int),
            decreases papers.len() - i,
        {
            let p = &papers[i];
            let mut s = crate::text::owned("[");
            crate::text::push_dec(&mut s, i as u64);
            s.append("] Title: ");
            s.append(p.title.as_str());
            s.append("\nAuthors: ");
            if p.authors.len() > 0 {
                s.append(p.authors[0].as_str());
            } else {
                s.append("Unknown");
            }
            s.append("\nYear: ");
            crate::text::push_dec(&mut s, p.year as u64);
            s.append("\nVenue: ");
            s.append(p.venue.as_str());
            s.append("\nAbstract: ");
            s.append(p.abstract_text.as_str());
            assert(s@ =~= score_entry(pv[i as int], i as nat));
            let ghost before = string_views(entries@);
            entries.push(s);
            assert(string_views(entries@) =~= before.push(s@));
            i = i + 1;
            assert(string_views(entries@) =~= Seq::new(pv.len(), |k: int| score_entry(pv[k], k as nat)).take(i as int));
        }
        assert(Seq::new(pv.len(), |k: int| score_entry(pv[k], k as nat)).take(pv.len() as int) =~= Seq::new(pv.len(), |k: int| score_entry(pv[k], k as nat)));
        let body = crate::text::join(&entries, "\n\n");
        let mut u = crate::text::owned("原始查询: ");
        u.append(original_query);
        u.append("\n论文列表:\n");
        u.append(body.as_str());
        assert(u@ =~= score_prompt_text(pv, original_query@));
        u
    }

    /// Reads the model's scores for a batch: for each entry of `scores` whose index names
    /// a paper, that paper with the entry's score (5 by default, cut to 8 bits) and
    /// rationale.
    pub fn parse_scores(content: &str, papers: &[Paper]) -> (res: Result<Vec<ScoredPaper>, ParseError>)
        ensures
            reply_scores_ok(res, content@, paper_views(papers@), false),
    {
        read_scores(content, papers, false)
    }

    /// Splits scored papers into the high tier (score 7 or more) and the partial tier
    /// (4 to 6), each sorted by score, highest first, keeping the order of equal scores;
    /// papers scored below 4 are left out.
    pub fn partition(scored: Vec<ScoredPaper>) -> (res: TieredResults)
        ensures
            stable_sorted(scored@.filter(|s: ScoredPaper| is_high(s)), res.high_relevance@, true),
            stable_sorted(scored@.filter(|s: ScoredPaper| is_partial(s)), res.partial_relevance@, true),
            res.high_relevance@.len() + res.partial_relevance@.len() <= scored@.len(),
    {
        let ghost input = scored@;
        let ghost hp = |s: ScoredPaper| is_high(s);
        let ghost pp = |s: ScoredPaper| is_partial(s);
        let mut high: Vec<ScoredPaper> = Vec::new();
        let mut partial: Vec<ScoredPaper> = Vec::new();
        let mut rest = scored;
        assert(input.len() == rest.len());
        let mut n: usize = 0;
        assert(input.skip(0) =~= input);
        assert(input.take(0).filter(hp) =~= Seq::<ScoredPaper>::empty() && input.take(0).filter(pp) =~= Seq::<ScoredPaper>::empty()) by {
            reveal_with_fuel(Seq::filter, 1);
        }
        while rest.len() > 0
            invariant
                n <= input.len(),
                input.len() <= usize::MAX,
                rest@ == input.skip(n as int),
                high@ == input.take(n as int).filter(hp),
                partial@ == input.take(n as int).filter(pp),
                high@.len() + partial@.len() <= n,
                hp == (|s: ScoredPaper| is_high(s)),
                pp == (|s: ScoredPaper| is_partial(s)),
            decreases rest.len(),
        {
            let sp = rest.remove(0);
            assert(sp == input[n as int]);
            assert(rest@ =~= input.skip(n + 1));
            assert(input.take(n + 1).drop_last() =~= input.take(n as int));
            proof {
                reveal_with_fuel(Seq::filter, 1);
            }
            let ghost h0 = high@;
            let ghost p0 = partial@;
            let ghost x = sp;
            if sp.score >= 7 {
                high.push(sp);
            } else if sp.score >= 4 {
                partial.push(sp);
            }
            proof {
                assert(input.take(n + 1).last() == x);
                if is_high(x) {
                    assert(high@ =~= h0.push(x));
                } else if is_partial(x) {
                    assert(partial@ =~= p0.push(x));
                }
            }
            n = n + 1;
        }
        assert(input.take(n as int) =~= input);
        let high = stable_sort(high, true);
        let partial = stable_sort(partial, true);
        TieredResults { high_relevance: high, partial_relevance: partial }
    }
}

// ── Scoring a list of papers batch by batch ──

/// A scoring of papers in batches of 20, one model call per batch, in order: the
/// papers, the next batch to score, the scores so far and the tokens used.
#[derive(Debug)]
pub struct ScoreRun {
    pub query: String,
    pub papers: Vec<Paper>,
    pub next: usize,
    pub scored: Vec<ScoredPaper>,
    pub tokens: u32,
}

impl ScoreRun {
    /// The batches still to score.
    pub open spec fn remaining(&self) -> bool {
        20 * self.next < self.papers@.len()
    }

    /// Starts the scoring of `papers` for `query`.
    pub fn new(papers: Vec<Paper>, query: &str) -> (res: Self)
        ensures
            res.query@ == query@,
            res.papers == papers,
            res.next == 0,
            res.scored@.len() == 0,
            res.tokens == 0,
    {
        ScoreRun { query: crate::text::owned(query), papers, next: 0, scored: Vec::new(), tokens: 0 }
    }

    /// The prompt of the next batch, or `None` where all batches are scored.
    pub fn next_prompt(&self) -> (res: Option<String>)
        ensures
            match res {
                Some(p) => self.remaining() && p@ == score_prompt_text(
                    paper_views(crate::orchestrator::batch_of(self.papers@, self.next as int)),
                    self.query@,
                ),
                None => !self.remaining(),
            },
    {
        let n = self.papers.len();
        let bc: usize = n / 20 + (if n % 20 > 0 {
            1usize
        } else {
            0usize
        });
        let k = self.next;
        assert(k < bc ==> 20 * k < n) by (nonlinear_arith)
            requires
                bc == n / 20 + (if n % 20 > 0 {
                    1int
                } else {
                    0int
                }),
        ;
        assert(k >= bc ==> 20 * k >= n) by (nonlinear_arith)
            requires
                bc == n / 20 + (if n % 20 > 0 {
                    1int
                } else {
                    0int
                }),
        ;
        if k >= bc {
            return None;
        }
        let lo = 20 * k;
        let hi: usize = if n - lo > 20 {
            lo + 20
        } else {
            n
        };
        let chunk = vstd::slice::slice_subrange(self.papers.as_slice(), lo, hi);
        assert(chunk@ == crate::orchestrator::batch_of(self.papers@, self.next as int));
        Some(Ranker::score_prompt(chunk, self.query.as_str()))
    }

    /// Takes the reply of the next batch: its tokens are counted, and its scores
    /// (5 by default, cut to 8 bits) are added; fails where the reply is not JSON.
    pub fn on_reply(&mut self, content: &str, tokens: u32) -> (res: Result<(), ParseError>)
        requires
            old(self).remaining(),
            old(self).tokens + tokens <= u32::MAX,
        ensures
            final(self).query == old(self).query && final(self).papers == old(self).papers,
            final(self).tokens == old(self).tokens + tokens,
            final(self).next == old(self).next + 1,
            res is Ok <==> json_parsed(content@) is Some,
            res is Ok ==> crate::types::scored_views(final(self).scored@) == crate::types::scored_views(old(self).scored@)
                + match json_parsed(content@)->0.at("scores"@).array_of() {
                Some(a) => scored_entries(
                    a,
                    paper_views(crate::orchestrator::batch_of(old(self).papers@, old(self).next as int)),
                    false,
                ),
                None => seq![],
            },
    {
        self.tokens = self.tokens + tokens;
        let n = self.papers.len();
        let lo = 20 * self.next;
        let hi: usize = if n - lo > 20 {
            lo + 20
        } else {
            n
        };
        let chunk = vstd::slice::slice_subrange(self.papers.as_slice(), lo, hi);
        assert(chunk@ == crate::orchestrator::batch_of(self.papers@, self.next as int));
        self.next = self.next + 1;
        match Ranker::parse_scores(content, chunk) {
            Ok(v) => {
                let ghost s0 = crate::types::scored_views(self.scored@);
                let mut v = v;
                let ghost vv = crate::types::scored_views(v@);
                self.scored.append(&mut v);
                assert(crate::types::scored_views(self.scored@) =~= s0 + vv);
                Ok(())
            },
            Err(e) => Err(e),
        }
    }
}

// ── What a partition guarantees ──

/// The tiers of a partition of `scored`: every highly relevant paper has a score of 7
/// or more and every partially relevant one a score from 4 to 6; every paper of a tier
/// is one of the scored papers; each tier is ordered by score, highest first; and no
/// paper scored 4 or more is lost: those scored 7 or more are in the high tier, those
/// scored 4, 5 or 6 in the partial tier.
pub proof fn lemma_partition_tiers(scored: Seq<ScoredPaper>, high: Seq<ScoredPaper>, partial: Seq<ScoredPaper>)
    requires
        stable_sorted(scored.filter(|s: ScoredPaper| is_high(s)), high, true),
        stable_sorted(scored.filter(|s: ScoredPaper| is_partial(s)), partial, true),
    ensures
        forall|i: int| 0 <= i < high.len() ==> #[trigger] high[i].score >= 7 && scored.contains(high[i]),
        forall|i: int| 0 <= i < partial.len() ==> 4 <= #[trigger] partial[i].score < 7 && scored.contains(partial[i]),
        forall|i: int, j: int| 0 <= i < j < high.len() ==> #[trigger] high[i].score >= #[trigger] high[j].score,
        forall|i: int, j: int| 0 <= i < j < partial.len() ==> #[trigger] partial[i].score >= #[trigger] partial[j].score,
        forall|i: int| 0 <= i < scored.len() && #[trigger] scored[i].score >= 7 ==> high.contains(scored[i]),
        forall|i: int| 0 <= i < scored.len() && 4 <= #[trigger] scored[i].score < 7 ==> partial.contains(scored[i]),
{
    let hp = |s: ScoredPaper| is_high(s);
    let pp = |s: ScoredPaper| is_partial(s);
    let fh = scored.filter(hp);
    let fp = scored.filter(pp);
    crate::sort::lemma_sorted_covers_input(fh, high, true);
    crate::sort::lemma_sorted_covers_input(fp, partial, true);
    assert forall|i: int| 0 <= i < scored.len() && #[trigger] scored[i].score >= 7 implies high.contains(scored[i]) by {
        scored.lemma_filter_contains(hp, i);
        let j = choose|j: int| 0 <= j < fh.len() && fh[j] == scored[i];
        assert(high.contains(fh[j]));
    }
    assert forall|i: int| 0 <= i < scored.len() && 4 <= #[trigger] scored[i].score < 7 implies partial.contains(scored[i]) by {
        scored.lemma_filter_contains(pp, i);
        let j = choose|j: int| 0 <= j < fp.len() && fp[j] == scored[i];
        assert(partial.contains(fp[j]));
    }
    crate::sort::lemma_sorted_from_input(scored.filter(hp), high, true);
    crate::sort::lemma_sorted_from_input(scored.filter(pp), partial, true);
    assert forall|i: int| 0 <= i < high.len() implies #[trigger] high[i].score >= 7 && scored.contains(high[i]) by {
        let f = scored.filter(hp);
        assert(f.contains(high[i]));
        let j = choose|j: int| 0 <= j < f.len() && f[j] == high[i];
        scored.lemma_filter_pred(hp, j);
        scored.lemma_filter_contains_rev(hp, high[i]);
    }
    assert forall|i: int| 0 <= i < partial.len() implies 4 <= #[trigger] partial[i].score < 7 && scored.contains(partial[i]) by {
        let f = scored.filter(pp);
        assert(f.contains(partial[i]));
        let j = choose|j: int| 0 <= j < f.len() && f[j] == partial[i];
        scored.lemma_filter_pred(pp, j);
        scored.lemma_filter_contains_rev(pp, partial[i]);
    }
    assert forall|i: int, j: int| 0 <= i < j < high.len() implies #[trigger] high[i].score >= #[trigger] high[j].score by {
        assert(crate::sort::in_order(high[i].key(), high[j].key(), true));
    }
    assert forall|i: int, j: int| 0 <= i < j < partial.len() implies #[trigger] partial[i].score >= #[trigger] partial[j].score by {
        assert(crate::sort::in_order(partial[i].key(), partial[j].key(), true));
    }
}

/// Batch scores are kept from 1 to 10, and each scored paper is one of the batch.
pub proof fn lemma_clamped_scores(entries: Seq<JsonValue>, papers: Seq<PaperView>)
    ensures
        forall|i: int|
            0 <= i < scored_entries(entries, papers, true).len() ==> 1 <= (#[trigger] scored_entries(entries, papers, true)[i]).score
                <= 10 && papers.contains(scored_entries(entries, papers, true)[i].paper),
    decreases entries.len(),
{
    if entries.len() > 0 {
        lemma_clamped_scores(entries.drop_last(), papers);
        let r = scored_entries(entries.drop_last(), papers, true);
        let all = scored_entries(entries, papers, true);
        assert forall|i: int| 0 <= i < all.len() implies 1 <= (#[trigger] all[i]).score <= 10 && papers.contains(all[i].paper) by {
            if i < r.len() {
                assert(all[i] == r[i]);
            } else {
                let e = entries.last();
                let idx = u64_or(e.at("index"@), 0) as usize;
                assert(all[i].paper == papers[idx as int]);
            }
        }
    }
}

/// The pre-filter keeps a paper exactly where its year lies in the plan's year range,
/// if there is one, both ends included, and its lowercased title or abstract holds a
/// lowercased word of a sub-query; the papers kept keep their order.
pub proof fn lemma_fast_filter_keeps(papers: Seq<Paper>, plan: QueryPlan, res: Seq<Paper>)
    requires
        res == papers.filter(|p: Paper| passes_filter(p, keywords(plan_queries(plan)), plan.constraints.year_range)),
    ensures
        forall|i: int|
            0 <= i < papers.len() && (plan.constraints.year_range matches Some((s, e)) ==> s <= (#[trigger] papers[i]).year
                && papers[i].year <= e) && (exists|k: int|
                0 <= k < keywords(plan_queries(plan)).len() && contains_seq(
                    lowercase(papers[i].title@) + " "@ + lowercase(papers[i].abstract_text@),
                    #[trigger] keywords(plan_queries(plan))[k],
                )) ==> res.contains(papers[i]),
        forall|i: int|
            0 <= i < res.len() ==> (plan.constraints.year_range matches Some((s, e)) ==> s <= (#[trigger] res[i]).year
                && res[i].year <= e) && papers.contains(res[i]) && (exists|k: int|
                0 <= k < keywords(plan_queries(plan)).len() && contains_seq(
                    lowercase(res[i].title@) + " "@ + lowercase(res[i].abstract_text@),
                    #[trigger] keywords(plan_queries(plan))[k],
                )),
{
    let kws = keywords(plan_queries(plan));
    let f = |p: Paper| passes_filter(p, kws, plan.constraints.year_range);
    papers.filter_lemma(f);
    assert forall|i: int| 0 <= i < res.len() implies (plan.constraints.year_range matches Some((s, e)) ==> s <= (
    #[trigger] res[i]).year && res[i].year <= e) && papers.contains(res[i]) && (exists|k: int|
        0 <= k < kws.len() && contains_seq(
            lowercase(res[i].title@) + " "@ + lowercase(res[i].abstract_text@),
            #[trigger] kws[k],
        )) by {
        papers.lemma_filter_pred(f, i);
        assert(res.contains(res[i]));
        papers.lemma_filter_contains_rev(f, res[i]);
    }
}

/// Each entry of a reply whose index (0 by default) names one of the papers gives that
/// paper its score and rationale; every scored paper is one of the papers.
pub proof fn lemma_scored_entries_place(entries: Seq<JsonValue>, papers: Seq<PaperView>, clamp: bool)
    ensures
        forall|m: int|
            0 <= m < entries.len() && (u64_or((#[trigger] entries[m]).at("index"@), 0) as usize) < papers.len()
                ==> scored_entries(entries, papers, clamp).contains(
                ScoredPaperView {
                    paper: papers[u64_or(entries[m].at("index"@), 0) as usize as int],
                    score: entry_score(entries[m], clamp),
                    rationale: str_or(entries[m].at("rationale"@), ""@),
                },
            ),
        forall|k: int|
            0 <= k < scored_entries(entries, papers, clamp).len() ==> papers.contains(
                (#[trigger] scored_entries(entries, papers, clamp)[k]).paper,
            ),
    decreases entries.len(),
{
    if entries.len() > 0 {
        let pre = entries.drop_last();
        lemma_scored_entries_place(pre, papers, clamp);
        let rest = scored_entries(pre, papers, clamp);
        let all = scored_entries(entries, papers, clamp);
        let e = entries.last();
        let idx = u64_or(e.at("index"@), 0) as usize;
        assert forall|m: int|
            0 <= m < entries.len() && (u64_or((#[trigger] entries[m]).at("index"@), 0) as usize) < papers.len()
                implies all.contains(
                ScoredPaperView {
                    paper: papers[u64_or(entries[m].at("index"@), 0) as usize as int],
                    score: entry_score(entries[m], clamp),
                    rationale: str_or(entries[m].at("rationale"@), ""@),
                },
            ) by {
            if m < pre.len() {
                assert(pre[m] == entries[m]);
                let x = ScoredPaperView {
                    paper: papers[u64_or(entries[m].at("index"@), 0) as usize as int],
                    score: entry_score(entries[m], clamp),
                    rationale: str_or(entries[m].at("rationale"@), ""@),
                };
                assert(rest.contains(x));
                let q = choose|q: int| 0 <= q < rest.len() && rest[q] == x;
                if idx < papers.len() {
                    assert(all == rest.push(all.last()));
                    assert(all[q] == x);
                } else {
                    assert(all == rest);
                }
            } else {
                assert(all.last() == ScoredPaperView {
                    paper: papers[idx as int],
                    score: entry_score(e, clamp),
                    rationale: str_or(e.at("rationale"@), ""@),
                });
                assert(all[all.len() - 1] == all.last());
            }
        }
        assert forall|k: int| 0 <= k < all.len() implies papers.contains((#[trigger] all[k]).paper) by {
            if k < rest.len() {
                assert(all[k] == rest[k]);
            } else {
                assert(all[k].paper == papers[idx as int]);
            }
        }
    }
}

} // verus!
