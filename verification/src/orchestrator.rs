//! The search agent's orchestration: the opening message, the budget and progress
//! decisions of each round, dropping papers, scoring in batches, and the result when a
//! search is cancelled.
use crate::progress::{
    detail_text, detail_views, ev, flag_member, num_member, render_detail, text_member, DetailView,
    DetailValue,
};
use crate::sort::{stable_sort, stable_sorted, SortKey};
use crate::text::{byte_count, dec, joined, prefix, string_views};
use crate::types::{
    event_views, paper_views, EventView, Paper, PaperView, ProgressEvent, ScoredPaper, ScoredPaperView,
    SearchResult, TieredResults,
};
use vstd::prelude::*;

verus! {

/// The system prompt of the search agent.
pub const SYSTEM_PROMPT: &'static str = r#"You are an expert academic research assistant. Your task is to find research papers relevant to the user's query.

## Workflow

1. **Search strategically**: Start with 2-3 different keyword combinations covering different aspects (methodology, application, theory). Use English academic keywords.
2. **Review results**: Papers are shown with index numbers in brackets, like [0], [5], [12]. Use these indices to reference papers.
3. **Expand via citations**: For the most promising papers, use get_cited_papers(index) or get_references(index) with their index number.
4. **Iterate if needed**: If coverage is insufficient, search with alternative keywords.
5. **Finalize**: When you have gathered a good set of relevant papers (usually 20-50), call `finish_search` with a brief summary of what you found.

## Important

- **When to clarify**: If a query could refer to multiple distinct research areas, call `clarify_query`. This applies at ANY stage:
  - BEFORE searching: vague/ambiguous queries (e.g., "鲜花", "无人机", "区块链", "电池", "AI", "机器人")
  - DURING searching: if first search results span unrelated fields (e.g., "鲜花的分子生物学" vs "鲜花的保鲜技术" vs "鲜花的文化史")
  - AFTER searching: when papers cluster into distinct groups — present each group as an option
  A good pattern: do ONE quick search to gauge breadth. If results are diverse, stop and clarify with 3-5 specific directions based on what you actually found. For example, searching "鲜花" might reveal: ①鲜花保鲜与采后生理 ②花卉基因育种 ③鲜切花供应链 ④鲜花文化与社会学 ⑤花艺设计. Present these to the user. Better to clarify early than waste budget on unfocused search.
- You have a limited budget. Usually 3-5 rounds is optimal. Be strategic!
- **CRITICAL**: ALWAYS include a brief reasoning in your response text BEFORE calling tools. Even if just 1 sentence, explain what you are doing and why. Do NOT leave the content field empty — the user needs to follow your thinking. Example: "Round 2: The MoE papers so far focus on architecture. I'll now search for load balancing methods specifically."
- If a search returns no results, try different keywords.
- Prioritize papers with higher citation counts when assessing quality.
- The system will handle detailed scoring and ranking after you finish searching. Your job is to cast a wide, relevant net.
- **When the user message says REFINEMENT**: the user is adding constraints to their previous query. Interpret the refinement as a FILTER, not as a new search topic. Combine the original topic keywords with the refinement (e.g., year, method, venue) — never search the refinement text literally.
- **When you have existing papers AND a refinement**: use the `drop_indices` in finish_search to remove papers that no longer match the refinement criteria. For example, if the user says \"只看2025年\", drop all pre-2025 papers. This keeps the paper pool clean and focused."#;

/// The system prompt of batch scoring.
pub const SCORE_BATCH_SYSTEM: &'static str = r#"你是一个学术论文评审专家。请对每篇论文与用户查询的相关性打分（1-10分）。

评分标准：
- 9-10: 直接相关，核心论文
- 7-8: 高度相关，重要参考
- 5-6: 部分相关
- 3-4: 略有关系
- 1-2: 基本无关

请输出严格 JSON 格式：{"scores": [{"index": 0, "score": 8, "rationale": "中文理由"}, ...]}"#;

/// What follows the summary of the existing pool in a refinement message.
pub const REFINE_POOL_TAIL: &'static str = "\n\n⛔ MANDATORY — BEFORE calling any search tools:\n1. SCAN the existing pool against the refinement. Which papers match? Which don't?\n2. CALL finish_search with `drop_indices` to REMOVE papers that don't match. You MUST list at least some indices to drop if the refinement is a filter.\n3. Only AFTER dropping, if the remaining pool is too small, search for more.\n\nFor example, if refinement is \"只看2025年\" and the pool has pre-2025 papers, you MUST drop them BY INDEX NUMBER. Look at each paper's year shown in previous results. Be aggressive — a clean small pool is better than a noisy large one.";

/// What follows the refinement in a refinement message without existing papers.
pub const REFINE_TAIL: &'static str = "\n\nInterpret the refinement as a FILTER or CONSTRAINT. Search for papers about the ORIGINAL TOPIC, applying the refinement. For example:\n- \"只关注2025年\" → add year filter, use relevant keywords\n- \"只看并行策略\" → focus on the method mentioned\n- \"要顶会论文\" → prioritize top venues\n\nDo NOT search the refinement text literally. Generate English keywords that COMBINE the original topic with the refinement constraint.";

/// What follows the query in the first message of a new search.
pub const QUERY_TAIL: &'static str = "\n\nIf this query is ambiguous, do ONE quick search first to gauge the research landscape. Then, if results span distinct fields, CALL `clarify_query` with focused directions based on what you found. If the query is clearly specific, proceed with normal search. Before calling tools, briefly explain your strategy.";

/// The message asking the agent to finish when the pool is full.
pub const POOL_FULL_MSG: &'static str = "Paper pool is full (80 papers). Please call finish_search NOW. Use drop_indices if some are irrelevant.";

/// The message asking the agent to finish when the model budget is spent.
pub const LLM_BUDGET_MSG: &'static str = "You have reached the maximum number of operations. Please call finish_search NOW.";

/// The message asking the agent to finish when the search budget is spent.
pub const SEARCH_BUDGET_MSG: &'static str = "Search budget exhausted. Please call finish_search NOW.";

/// The nudge after an empty list of tool calls with little text.
pub const NUDGE_SEARCH_READY: &'static str = "Please use search_papers to find papers, then call finish_search when ready.";

/// The nudge after a reply without tool calls with little text.
pub const NUDGE_SEARCH: &'static str = "Please use search_papers to find relevant papers, then call finish_search.";

/// The nudge after a reply with enough text but no tool call.
pub const NUDGE_FINISH: &'static str = "Please call finish_search to proceed to the scoring phase.";

/// The answer to a `clarify_query` call whose arguments are not JSON.
pub const CLARIFY_PARSE_ERROR: &'static str = "Error parsing clarify options. Please try again with valid JSON.";

/// The message sent when every paper was dropped but budget remains.
pub const POOL_EMPTY_MSG: &'static str = "All papers were dropped — none matched the refinement. Search for NEW papers using keywords that combine the original topic with the refinement constraints.";

/// The message of the last, forced, model call.
pub const FORCE_MSG: &'static str = "Call finish_search NOW.";

/// The summary of a search that found no paper.
pub const EMPTY_SUMMARY: &'static str = "多次搜索未找到匹配的论文。建议放宽约束或换个研究方向。";

/// The rationale of papers ranked by citations after a cancellation.
pub const CANCEL_RATIONALE: &'static str = "(搜索被取消，按引用数粗略排序)";

/// The error of a search cancelled before any paper was found.
pub const CANCEL_EMPTY_ERROR: &'static str = "搜索被取消，未找到任何论文。";

/// The number of papers at which the pool counts as full.
pub const POOL_LIMIT: usize = 80;

/// The number of papers scored per model call.
pub const BATCH_SIZE: usize = 20;

// ── The opening message ──

/// The years of the papers that have one (a year above 0).
pub open spec fn known_years(pool: Seq<PaperView>) -> Seq<u32>
    decreases pool.len(),
{
    if pool.len() == 0 {
        seq![]
    } else if pool.last().year > 0 {
        known_years(pool.drop_last()).push(pool.last().year)
    } else {
        known_years(pool.drop_last())
    }
}

/// The smallest element of a non-empty sequence.
pub open spec fn seq_min(s: Seq<u32>) -> u32
    decreases s.len(),
{
    if s.len() <= 1 {
        s[0]
    } else if s.last() < seq_min(s.drop_last()) {
        s.last()
    } else {
        seq_min(s.drop_last())
    }
}

/// The largest element of a non-empty sequence.
pub open spec fn seq_max(s: Seq<u32>) -> u32
    decreases s.len(),
{
    if s.len() <= 1 {
        s[0]
    } else if s.last() > seq_max(s.drop_last()) {
        s.last()
    } else {
        seq_max(s.drop_last())
    }
}

/// The span of the known years of the pool: "min - max", the single year, or "未知".
pub open spec fn year_span(pool: Seq<PaperView>) -> Seq<char> {
    let ys = known_years(pool);
    if ys.len() > 1 {
        dec(seq_min(ys) as nat) + " - "@ + dec(seq_max(ys) as nat)
    } else if ys.len() == 1 {
        dec(ys[0] as nat)
    } else {
        "未知"@
    }
}

/// The span of known years of a pool.
fn year_span_text(pool: &Vec<Paper>) -> (res: String)
    ensures
        res@ == year_span(paper_views(pool@)),
{
    let ghost pv = paper_views(pool@);
    let mut count: usize = 0;
    let mut lo: u32 = 0;
    let mut hi: u32 = 0;
    let mut i: usize = 0;
    while i < pool.len()
        invariant
            i <= pool@.len(),
            pv == paper_views(pool@),
            count == known_years(pv.take(i as int)).len(),
            count > 0 ==> lo == seq_min(known_years(pv.take(i as int))) && hi == seq_max(known_years(pv.take(i as int))),
            count == 1 ==> lo == known_years(pv.take(i as int))[0],
            count <= i,
        decreases pool.len() - i,
    {
        assert(pv.take(i + 1).drop_last() =~= pv.take(i as int));
        let y = pool[i].year;
        let ghost ys0 = known_years(pv.take(i as int));
        assert(pv.take(i + 1).last().year == y);
        assert(y > 0 ==> known_years(pv.take(i + 1)) == ys0.push(y));
        assert(y > 0 ==> ys0.push(y).drop_last() =~= ys0);
        assert(y == 0 ==> known_years(pv.take(i + 1)) == ys0);
        if y > 0 {
            if count == 0 {
                lo = y;
                hi = y;
            } else {
                if y < lo {
                    lo = y;
                }
                if y > hi {
                    hi = y;
                }
            }
            count = count + 1;
        }
        i = i + 1;
    }
    assert(pv.take(pool@.len() as int) =~= pv);
    if count > 1 {
        let mut s = crate::text::dec_string(lo as u64);
        s.append(" - ");
        crate::text::push_dec(&mut s, hi as u64);
        s
    } else if count == 1 {
        crate::text::dec_string(lo as u64)
    } else {
        crate::text::owned("未知")
    }
}

/// A venue of the pool, by the position of its first paper, with its number of papers.
#[derive(Debug, Clone, Copy)]
pub struct VenueCount {
    pub first: usize,
    pub count: u64,
}

impl SortKey for VenueCount {
    open spec fn key(&self) -> u64 {
        self.count
    }

    fn sort_key(&self) -> (res: u64) {
        self.count
    }
}

/// The position in `t` of the venue `v` of the pool `pool`, if it is there.
pub open spec fn venue_slot(t: Seq<VenueCount>, pool: Seq<PaperView>, v: Seq<char>) -> Option<int> {
    if exists|k: int| 0 <= k < t.len() && pool[t[k].first as int].venue == v {
        Some(choose|k: int| 0 <= k < t.len() && pool[t[k].first as int].venue == v)
    } else {
        None
    }
}

/// The venues of the pool in order of first appearance, with their numbers of papers.
pub open spec fn venue_tally(pool: Seq<PaperView>) -> Seq<VenueCount>
    decreases pool.len(),
{
    if pool.len() == 0 {
        seq![]
    } else {
        let t = venue_tally(pool.drop_last());
        match venue_slot(t, pool, pool.last().venue) {
            Some(k) => t.update(k, VenueCount { first: t[k].first, count: (t[k].count + 1) as u64 }),
            None => t.push(VenueCount { first: (pool.len() - 1) as usize, count: 1 }),
        }
    }
}

/// "venue (count)" for the top entries of a ranking, joined by ", ".
pub open spec fn venue_list(pool: Seq<PaperView>, ranked: Seq<VenueCount>) -> Seq<char> {
    let n = if ranked.len() < 5 {
        ranked.len()
    } else {
        5
    };
    joined(Seq::new(n, |i: int| pool[ranked[i].first as int].venue + " ("@ + dec(ranked[i].count as nat) + ")"@), ", "@)
}

/// The five venues with the most papers, "venue (count)", joined by ", "; venues with
/// equal counts come in order of first appearance.
pub open spec fn top_venues_ok(text: Seq<char>, pool: Seq<PaperView>) -> bool {
    exists|ranked: Seq<VenueCount>| stable_sorted(venue_tally(pool), ranked, true) && text == venue_list(pool, ranked)
}

/// Well-formed tallies: each entry names a paper with that venue, and venues are distinct.
pub open spec fn tally_ok(t: Seq<VenueCount>, pool: Seq<PaperView>) -> bool {
    &&& forall|k: int| 0 <= k < t.len() ==> (#[trigger] t[k]).first < pool.len()
    &&& forall|k: int| 0 <= k < t.len() ==> #[trigger] t[k].count <= pool.len()
}

proof fn lemma_tally_ok(pool: Seq<PaperView>)
    requires
        pool.len() <= usize::MAX,
    ensures
        tally_ok(venue_tally(pool), pool),
        venue_tally(pool).len() <= pool.len(),
    decreases pool.len(),
{
    if pool.len() > 0 {
        lemma_tally_ok(pool.drop_last());
        let t = venue_tally(pool.drop_last());
        assert forall|k: int| 0 <= k < t.len() implies pool.drop_last()[t[k].first as int] == pool[t[k].first as int] by {}
    }
}

/// Finds the position of venue `v` in the tally.
fn find_venue(t: &Vec<VenueCount>, pool: &Vec<Paper>, v: &str) -> (res: Option<usize>)
    requires
        forall|k: int| 0 <= k < t@.len() ==> (#[trigger] t@[k]).first < pool@.len(),
    ensures
        match res {
            Some(k) => k < t@.len() && pool@[t@[k as int].first as int].venue@ == v@,
            None => forall|k: int| 0 <= k < t@.len() ==> pool@[(#[trigger] t@[k]).first as int].venue@ != v@,
        },
{
    let mut k: usize = 0;
    while k < t.len()
        invariant
            k <= t@.len(),
            forall|j: int| 0 <= j < t@.len() ==> (#[trigger] t@[j]).first < pool@.len(),
            forall|j: int| 0 <= j < k ==> pool@[(#[trigger] t@[j]).first as int].venue@ != v@,
        decreases t.len() - k,
    {
        if crate::text::str_eq(pool[t[k].first].venue.as_str(), v) {
            return Some(k);
        }
        k = k + 1;
    }
    None
}

/// The top venues of a pool.
fn top_venues_text(pool: &Vec<Paper>) -> (res: String)
    ensures
        top_venues_ok(res@, paper_views(pool@)),
{
    let ghost pv = paper_views(pool@);
    let mut t: Vec<VenueCount> = Vec::new();
    let mut i: usize = 0;
    while i < pool.len()
        invariant
            i <= pool@.len(),
            pv == paper_views(pool@),
            t@ == venue_tally(pv.take(i as int)),
            forall|k: int| 0 <= k < t@.len() ==> (#[trigger] t@[k]).first < i,
            forall|k: int| 0 <= k < t@.len() ==> #[trigger] t@[k].count <= i,
            t@.len() <= i,
        decreases pool.len() - i,
    {
        let ghost pre = pv.take(i as int);
        let ghost cur = pv.take(i + 1);
        assert(cur.drop_last() =~= pre);
        assert(cur.last() == pool@[i as int]@);
        assert forall|k: int| 0 <= k < t@.len() implies cur[t@[k].first as int] == pool@[t@[k].first as int]@ by {}
        let slot = find_venue(&t, pool, pool[i].venue.as_str());
        match slot {
            Some(k) => {
                proof {
                    assert(pool@[t@[k as int].first as int]@.venue == cur.last().venue);
                }
                let old_entry = t[k];
                t.set(k, VenueCount { first: old_entry.first, count: old_entry.count + 1 });
                proof {
                    let tt = venue_tally(pre);
                    let kk = venue_slot(tt, cur, cur.last().venue)->0;
                    assert(venue_slot(tt, cur, cur.last().venue) is Some);
                    assert(cur[tt[kk].first as int].venue == cur.last().venue);
                    assert(kk == k as int) by {
                        if kk != k as int {
                            lemma_tally_distinct(pre);
                            assert(cur[tt[kk].first as int] == pre[tt[kk].first as int]);
                            assert(cur[tt[k as int].first as int] == pre[tt[k as int].first as int]);
                        }
                    }
                }
            },
            None => {
                t.push(VenueCount { first: i, count: 1 });
                proof {
                    assert(venue_slot(venue_tally(pre), cur, cur.last().venue) is None);
                }
            },
        }
        i = i + 1;
    }
    assert(pv.take(pool@.len() as int) =~= pv);
    let ranked = stable_sort(t, true);
    let n: usize = if ranked.len() < 5 {
        ranked.len()
    } else {
        5
    };
    let ghost items = Seq::new(n as nat, |j: int| pv[ranked@[j].first as int].venue + " ("@ + dec(ranked@[j].count as nat) + ")"@);
    proof {
        crate::sort::lemma_sorted_from_input(venue_tally(pv), ranked@, true);
        lemma_tally_ok(pv);
        assert forall|k: int| 0 <= k < ranked@.len() implies (#[trigger] ranked@[k]).first < pool@.len() by {
            let e = ranked@[k];
            assert(venue_tally(pv).contains(e));
            let q = choose|q: int| 0 <= q < venue_tally(pv).len() && venue_tally(pv)[q] == e;
            assert(venue_tally(pv)[q].first < pv.len());
        }
    }
    let mut parts: Vec<String> = Vec::new();
    let mut j: usize = 0;
    while j < n
        invariant
            j <= n <= ranked@.len(),
            pv == paper_views(pool@),
            forall|k: int| 0 <= k < ranked@.len() ==> (#[trigger] ranked@[k]).first < pool@.len(),
            items == Seq::new(n as nat, |q: int| pv[ranked@[q].first as int].venue + " ("@ + dec(ranked@[q].count as nat) + ")"@),
            string_views(parts@) == items.take(j as int),
        decreases n - j,
    {
        let vc = ranked[j];
        let mut s = pool[vc.first].venue.clone();
        s.append(" (");
        crate::text::push_dec(&mut s, vc.count);
        s.append(")");
        let ghost before = string_views(parts@);
        parts.push(s);
        assert(string_views(parts@) =~= before.push(s@));
        j = j + 1;
        assert(string_views(parts@) =~= items.take(j as int));
    }
    assert(items.take(n as int) =~= items);
    let res = crate::text::join(&parts, ", ");
    assert(res@ == venue_list(pv, ranked@));
    res
}

/// Distinct entries of a tally name distinct venues.
proof fn lemma_tally_distinct(pool: Seq<PaperView>)
    requires
        pool.len() <= usize::MAX,
    ensures
        forall|a: int, b: int|
            0 <= a < b < venue_tally(pool).len() ==> pool[#[trigger] venue_tally(pool)[a].first as int].venue
                != pool[#[trigger] venue_tally(pool)[b].first as int].venue,
        forall|k: int| 0 <= k < venue_tally(pool).len() ==> (#[trigger] venue_tally(pool)[k]).first < pool.len(),
    decreases pool.len(),
{
    if pool.len() > 0 {
        let pre = pool.drop_last();
        lemma_tally_distinct(pre);
        let t = venue_tally(pre);
        assert forall|k: int| 0 <= k < t.len() implies pool[t[k].first as int] == pre[t[k].first as int] by {}
        let v = pool.last().venue;
        match venue_slot(t, pool, v) {
            Some(k) => {
                let t2 = t.update(k, VenueCount { first: t[k].first, count: (t[k].count + 1) as u64 });
                assert(venue_tally(pool) == t2);
                assert forall|a: int, b: int| 0 <= a < b < t2.len() implies pool[#[trigger] t2[a].first as int].venue
                    != pool[#[trigger] t2[b].first as int].venue by {
                    assert(t2[a].first == t[a].first && t2[b].first == t[b].first);
                }
            },
            None => {
                let t2 = t.push(VenueCount { first: (pool.len() - 1) as usize, count: 1 });
                assert(venue_tally(pool) == t2);
                assert forall|a: int, b: int| 0 <= a < b < t2.len() implies pool[#[trigger] t2[a].first as int].venue
                    != pool[#[trigger] t2[b].first as int].venue by {
                    assert(t2[a] == t[a]);
                    assert(t[a].first < pre.len());
                    assert(pool[t[a].first as int] == pre[t[a].first as int]);
                    if b == t.len() {
                        assert(t2[b].first == pool.len() - 1);
                        if pool[t[a].first as int].venue == v {
                            assert(0 <= a < t.len() && pool[t[a].first as int].venue == v);
                            assert(exists|k: int| 0 <= k < t.len() && pool[t[k].first as int].venue == v);
                        }
                    } else {
                        assert(t2[b] == t[b]);
                        assert(t[b].first < pre.len());
                        assert(pool[t[b].first as int] == pre[t[b].first as int]);
                        assert(pre[t[a].first as int].venue != pre[t[b].first as int].venue);
                    }
                }
            },
        }
    }
}


/// The opening user message of a search: the query alone; with a refinement, the
/// query and the refinement; and where papers are already in the pool, also a
/// summary of the pool (its size, span of years and top venues).
pub open spec fn opening_message_ok(msg: Seq<char>, query: Seq<char>, refinement: Option<Seq<char>>, pool: Seq<PaperView>) -> bool {
    match refinement {
        Some(r) => if pool.len() > 0 {
            exists|venues: Seq<char>|
                top_venues_ok(venues, pool) && msg == "ORIGINAL QUERY: "@ + query + "\n\nREFINEMENT: "@ + r + "\n\nEXISTING POOL: "@
                    + dec(pool.len()) + " papers\n  Years: "@ + year_span(pool) + "\n  Top venues: "@ + venues + REFINE_POOL_TAIL@
        } else {
            msg == "ORIGINAL QUERY: "@ + query + "\n\nREFINEMENT: "@ + r + REFINE_TAIL@
        },
        None => msg == "Research query: "@ + query + QUERY_TAIL@,
    }
}

/// The opening user message of a search.
pub fn opening_message(query: &str, refinement: Option<&str>, pool: &Vec<Paper>) -> (res: String)
    ensures
        opening_message_ok(res@, query@, match refinement {
            Some(r) => Some(r@),
            None => None,
        }, paper_views(pool@)),
{
    match refinement {
        Some(r) => {
            let mut s = crate::text::owned("ORIGINAL QUERY: ");
            s.append(query);
            s.append("\n\nREFINEMENT: ");
            s.append(r);
            if pool.len() > 0 {
                let years = year_span_text(pool);
                let venues = top_venues_text(pool);
                s.append("\n\nEXISTING POOL: ");
                crate::text::push_dec(&mut s, pool.len() as u64);
                s.append(" papers\n  Years: ");
                s.append(years.as_str());
                s.append("\n  Top venues: ");
                s.append(venues.as_str());
                s.append(REFINE_POOL_TAIL);
                assert(s@ =~= "ORIGINAL QUERY: "@ + query@ + "\n\nREFINEMENT: "@ + r@ + "\n\nEXISTING POOL: "@
                    + dec(pool@.len()) + " papers\n  Years: "@ + year_span(paper_views(pool@)) + "\n  Top venues: "@ + venues@ + REFINE_POOL_TAIL@);
                s
            } else {
                s.append(REFINE_TAIL);
                s
            }
        },
        None => {
            let mut s = crate::text::owned("Research query: ");
            s.append(query);
            s.append(QUERY_TAIL);
            s
        },
    }
}

/// The message of the start event: a refinement reusing `preloaded` papers, or a new query.
pub open spec fn start_message(query: Seq<char>, preloaded: nat) -> Seq<char> {
    if preloaded > 0 {
        "细化搜索 — 复用 "@ + dec(preloaded) + " 篇已有论文 + 补充搜索"@
    } else {
        "开始分析查询: 「"@ + query + "」"@
    }
}

/// The event that opens a search.
pub open spec fn start_event(query: Seq<char>, preloaded: nat) -> EventView {
    EventView {
        phase: "agent_start"@,
        message: start_message(query, preloaded),
        percent: 5,
        detail: detail_text(seq![("query"@, DetailView::Text(query)), ("preloaded"@, DetailView::Num(preloaded as u64))]),
        tokens: 0,
    }
}

/// The event that opens a search.
pub fn start_event_exec(query: &str, preloaded: usize) -> (res: ProgressEvent)
    ensures
        res@ == start_event(query@, preloaded as nat),
{
    let mut msg = String::new();
    if preloaded > 0 {
        msg.append("细化搜索 — 复用 ");
        crate::text::push_dec(&mut msg, preloaded as u64);
        msg.append(" 篇已有论文 + 补充搜索");
    } else {
        msg.append("开始分析查询: 「");
        msg.append(query);
        msg.append("」");
    }
    let members = vec![text_member("query", query), num_member("preloaded", preloaded as u64)];
    let detail = render_detail(&members);
    assert(detail_views(members@) =~= seq![("query"@, DetailView::Text(query@)), ("preloaded"@, DetailView::Num(preloaded as u64))]);
    let e = ev("agent_start", msg.as_str(), 5, detail.as_str(), 0);
    assert(msg@ =~= start_message(query@, preloaded as nat));
    e
}

// ── The result of a cancelled search ──

impl SortKey for Paper {
    open spec fn key(&self) -> u64 {
        self.citation_count as u64
    }

    fn sort_key(&self) -> (res: u64) {
        self.citation_count as u64
    }
}

/// The rough score of a paper after a cancellation, by its citations: 7 above 100,
/// 5 above 10, else 3.
pub open spec fn cancel_score(citations: u32) -> u8 {
    if citations > 100 {
        7
    } else if citations > 10 {
        5
    } else {
        3
    }
}

/// The tier (high, or partial) of the rough ranking of `ps`.
pub open spec fn cancel_tier(ps: Seq<PaperView>, high: bool) -> Seq<ScoredPaperView>
    decreases ps.len(),
{
    if ps.len() == 0 {
        seq![]
    } else {
        let r = cancel_tier(ps.drop_last(), high);
        let p = ps.last();
        if (p.citation_count > 100) == high {
            r.push(ScoredPaperView { paper: p, score: cancel_score(p.citation_count), rationale: CANCEL_RATIONALE@ })
        } else {
            r
        }
    }
}

/// The result of a search cancelled with the pool `pool`: an error where the pool is
/// empty; else the 30 most cited papers (equal counts in pool order), scored by their
/// citations, in two tiers, with the event that reports it.
pub open spec fn cancel_result_ok(
    res: Result<SearchResult, String>,
    events: Seq<EventView>,
    pool: Seq<Paper>,
    llm_calls: u32,
    tokens: u32,
) -> bool {
    if pool.len() == 0 {
        res matches Err(e) && e@ == CANCEL_EMPTY_ERROR@ && events.len() == 0
    } else {
        exists|sorted: Seq<Paper>|
            stable_sorted(pool, sorted, true) && {
                let tops = paper_views(sorted.take(if sorted.len() < 30 {
                    sorted.len() as int
                } else {
                    30
                }));
                let high = cancel_tier(tops, true);
                let partial = cancel_tier(tops, false);
                let total = high.len() + partial.len();
                &&& res matches Ok(r) && {
                    &&& crate::types::scored_views(r.tiers.high_relevance@) == high
                    &&& crate::types::scored_views(r.tiers.partial_relevance@) == partial
                    &&& r.total_candidates == total
                    &&& r.rounds_used == llm_calls
                    &&& r.summary@ == "搜索被取消。基于已收集的 "@ + dec(total) + " 篇论文按引用数排序。"@
                    &&& r.conversation_id@.len() == 0
                    &&& !r.needs_clarification
                    &&& r.clarification_options@.len() == 0
                }
                &&& events == seq![EventView {
                    phase: "done"@,
                    message: "⚠️ 搜索被取消 — "@ + dec(total) + " 篇论文 · "@ + dec(tokens as nat) + " Token"@,
                    percent: 100,
                    detail: detail_text(seq![
                        ("high"@, DetailView::Num(high.len() as u64)),
                        ("partial"@, DetailView::Num(partial.len() as u64)),
                        ("cancelled"@, DetailView::Flag(true)),
                    ]),
                    tokens,
                }]
            }
    }
}

/// The result of a cancelled search: the papers gathered so far, ranked by citations.
pub fn build_partial_result(paper_list: Vec<Paper>, llm_calls: u32, total_tokens: u32) -> (res: (Result<SearchResult, String>, Vec<ProgressEvent>))
    ensures
        cancel_result_ok(res.0, event_views(res.1@), paper_list@, llm_calls, total_tokens),
{
    if paper_list.len() == 0 {
        let v: Vec<ProgressEvent> = Vec::new();
        assert(event_views(v@).len() == 0);
        return (Err(crate::text::owned(CANCEL_EMPTY_ERROR)), v);
    }
    let ghost pool = paper_list@;
    let sorted = stable_sort(paper_list, true);
    let n: usize = if sorted.len() < 30 {
        sorted.len()
    } else {
        30
    };
    let ghost tops = paper_views(sorted@.take(n as int));
    let mut high: Vec<ScoredPaper> = Vec::new();
    let mut partial: Vec<ScoredPaper> = Vec::new();
    let mut i: usize = 0;
    while i < n
        invariant
            i <= n <= sorted@.len(),
            tops == paper_views(sorted@.take(n as int)),
            crate::types::scored_views(high@) == cancel_tier(tops.take(i as int), true),
            crate::types::scored_views(partial@) == cancel_tier(tops.take(i as int), false),
            high@.len() + partial@.len() == i,
        decreases n - i,
    {
        let p = &sorted[i];
        let score: u8 = if p.citation_count > 100 {
            7
        } else if p.citation_count > 10 {
            5
        } else {
            3
        };
        let sp = ScoredPaper { paper: p.clone(), score, rationale: crate::text::owned(CANCEL_RATIONALE) };
        assert(tops.take(i + 1).drop_last() =~= tops.take(i as int));
        assert(tops.take(i + 1).last() == p@);
        let ghost h0 = crate::types::scored_views(high@);
        let ghost p0 = crate::types::scored_views(partial@);
        if score >= 7 {
            high.push(sp);
            assert(crate::types::scored_views(high@) =~= h0.push(sp@));
        } else {
            partial.push(sp);
            assert(crate::types::scored_views(partial@) =~= p0.push(sp@));
        }
        i = i + 1;
    }
    assert(tops.take(n as int) =~= tops);
    let total = high.len() + partial.len();
    let hn = high.len();
    let pn = partial.len();
    let mut msg = crate::text::owned("⚠️ 搜索被取消 — ");
    crate::text::push_dec(&mut msg, total as u64);
    msg.append(" 篇论文 · ");
    crate::text::push_dec(&mut msg, total_tokens as u64);
    msg.append(" Token");
    let members = vec![num_member("high", hn as u64), num_member("partial", pn as u64), flag_member("cancelled", true)];
    let detail = render_detail(&members);
    let e = ev("done", msg.as_str(), 100, detail.as_str(), total_tokens);
    let mut summary = crate::text::owned("搜索被取消。基于已收集的 ");
    crate::text::push_dec(&mut summary, total as u64);
    summary.append(" 篇论文按引用数排序。");
    let result = SearchResult {
        conversation_id: String::new(),
        summary,
        tiers: TieredResults { high_relevance: high, partial_relevance: partial },
        total_candidates: total,
        rounds_used: llm_calls,
        needs_clarification: false,
        clarification_options: Vec::new(),
    };
    let events = vec![e];
    proof {
        assert(detail_views(members@) =~= seq![
            ("high"@, DetailView::Num(hn as u64)),
            ("partial"@, DetailView::Num(pn as u64)),
            ("cancelled"@, DetailView::Flag(true)),
        ]);
        assert(event_views(events@) =~= seq![e@]);
        assert(stable_sorted(pool, sorted@, true));
    }
    (Ok(result), events)
}

// ── Dropping papers ──

/// The pool without the papers at the positions listed in `drops`.
pub open spec fn keep_after_drops<T>(pool: Seq<T>, drops: Seq<usize>) -> Seq<T>
    decreases pool.len(),
{
    if pool.len() == 0 {
        seq![]
    } else {
        let r = keep_after_drops(pool.drop_last(), drops);
        if drops.contains((pool.len() - 1) as usize) {
            r
        } else {
            r.push(pool.last())
        }
    }
}

/// Whether `drops` lists `i`.
fn lists(drops: &Vec<usize>, i: usize) -> (res: bool)
    ensures
        res == drops@.contains(i),
{
    let mut k: usize = 0;
    while k < drops.len()
        invariant
            k <= drops@.len(),
            forall|j: int| 0 <= j < k ==> drops@[j] != i,
        decreases drops.len() - k,
    {
        if drops[k] == i {
            return true;
        }
        k = k + 1;
    }
    false
}

/// Removes from the pool the papers at the positions listed in `drops` (positions
/// outside the pool are ignored), keeping the order of the others; returns how many
/// were removed.
pub fn drop_papers(paper_list: &mut Vec<Paper>, drops: &Vec<usize>) -> (dropped: usize)
    ensures
        final(paper_list)@ == keep_after_drops(old(paper_list)@, drops@),
        dropped == old(paper_list)@.len() - final(paper_list)@.len(),
{
    let mut rest: Vec<Paper> = Vec::new();
    std::mem::swap(&mut rest, paper_list);
    let ghost input = rest@;
    let before = rest.len();
    assert(input.skip(0) =~= input);
    let mut n: usize = 0;
    while rest.len() > 0
        invariant
            n <= input.len(),
            before == input.len(),
            rest@ == input.skip(n as int),
            paper_list@ == keep_after_drops(input.take(n as int), drops@),
            paper_list@.len() <= n,
        decreases rest.len(),
    {
        let p = rest.remove(0);
        assert(p == input[n as int]);
        assert(rest@ =~= input.skip(n + 1));
        assert(input.take(n + 1).drop_last() =~= input.take(n as int));
        assert(input.take(n + 1).last() == p);
        if !lists(drops, n) {
            paper_list.push(p);
        }
        n = n + 1;
    }
    assert(input.take(n as int) =~= input);
    before - paper_list.len()
}

// ── Scoring in batches ──

/// The number of scoring batches of `n` papers (batches of 20).
pub open spec fn batch_count(n: nat) -> nat {
    (n + 19) / 20
}

/// Batch `b` of the pool: papers 20·b up to 20·b + 20 (or the end).
pub open spec fn batch_of<T>(pool: Seq<T>, b: int) -> Seq<T> {
    let lo = 20 * b;
    let hi = if 20 * b + 20 < pool.len() {
        20 * b + 20
    } else {
        pool.len() as int
    };
    pool.subrange(lo, hi)
}

/// The entry of a paper in a batch scoring prompt.
pub open spec fn batch_entry(p: PaperView, i: nat) -> Seq<char> {
    "["@ + dec(i) + "] Title: "@ + p.title + "\nAuthors: "@ + (if p.authors.len() > 0 {
        p.authors[0]
    } else {
        "Unknown"@
    }) + "\nYear: "@ + dec(p.year as nat) + " | Venue: "@ + p.venue + " | Citations: "@ + dec(p.citation_count as nat)
        + "\nAbstract: "@ + prefix(p.abstract_text, 300)
}

/// The user prompt that asks to score a batch of papers for a query.
pub open spec fn batch_prompt_text(papers: Seq<PaperView>, query: Seq<char>) -> Seq<char> {
    "用户查询: "@ + query + "\n\n论文列表:\n"@ + joined(Seq::new(papers.len(), |i: int| batch_entry(papers[i], i as nat)), "\n\n"@)
}

/// The user prompt that asks to score a batch of papers.
pub fn batch_prompt(papers: &[Paper], original_query: &str) -> (res: String)
    ensures
        res@ == batch_prompt_text(paper_views(papers@), original_query@),
{
    let ghost pv = paper_views(papers@);
    let ghost items = Seq::new(pv.len(), |k: int| batch_entry(pv[k], k as nat));
    let mut entries: Vec<String> = Vec::new();
    let mut i: usize = 0;
    while i < papers.len()
        invariant
            i <= papers@.len(),
            pv == paper_views(papers@),
            items == Seq::new(pv.len(), |k: int| batch_entry(pv[k], k as nat)),
            string_views(entries@) == items.take(i as int),
        decreases papers.len() - i,
    {
        let p = &papers[i];
        let snippet = crate::text::take_chars(p.abstract_text.as_str(), 300);
        let mut s = crate::text::owned("[");
        crate::text::push_dec(&mut s, i as u64);
        s.append("] Title: ");
        s.append(p.title.as_str());
        s.append("\nAuthors: ");
        if p.authors.len() > 0 {
            s.append(p.authors[0].as_str());
        } else {
            s.append("Unknown");
        }
        s.append("\nYear: ");
        crate::text::push_dec(&mut s, p.year as u64);
        s.append(" | Venue: ");
        s.append(p.venue.as_str());
        s.append(" | Citations: ");
        crate::text::push_dec(&mut s, p.citation_count as u64);
        s.append("\nAbstract: ");
        s.append(snippet.as_str());
        assert(s@ =~= batch_entry(pv[i as int], i as nat));
        let ghost before = string_views(entries@);
        entries.push(s);
        assert(string_views(entries@) =~= before.push(s@));
        i = i + 1;
        assert(string_views(entries@) =~= items.take(i as int));
    }
    assert(items.take(pv.len() as int) =~= items);
    let body = crate::text::join(&entries, "\n\n");
    let mut u = crate::text::owned("用户查询: ");
    u.append(original_query);
    u.append("\n\n论文列表:\n");
    u.append(body.as_str());
    assert(u@ =~= batch_prompt_text(pv, original_query@));
    u
}

/// The scores of a batch reply: each entry's score kept in 1..10.
pub fn parse_batch_scores(content: &str, papers: &[Paper]) -> (res: Result<Vec<ScoredPaper>, crate::json::ParseError>)
    ensures
        crate::ranker::reply_scores_ok(res, content@, paper_views(papers@), true),
{
    crate::ranker::read_scores(content, papers, true)
}

// ── What a cancelled search returns ──

/// The tiers of a cancelled search: the papers cited more than 100 times form the
/// high tier, all scored 7; the others form the partial tier, scored 5 (more than 10
/// citations) or 3; together they hold every paper ranked.
pub proof fn lemma_cancel_tiers(ps: Seq<PaperView>)
    ensures
        cancel_tier(ps, true).len() + cancel_tier(ps, false).len() == ps.len(),
        forall|i: int| 0 <= i < cancel_tier(ps, true).len() ==> (#[trigger] cancel_tier(ps, true)[i]).score == 7,
        forall|i: int|
            0 <= i < cancel_tier(ps, false).len() ==> (#[trigger] cancel_tier(ps, false)[i]).score == 5 || cancel_tier(
                ps,
                false,
            )[i].score == 3,
    decreases ps.len(),
{
    if ps.len() > 0 {
        lemma_cancel_tiers(ps.drop_last());
        let h = cancel_tier(ps.drop_last(), true);
        let p = cancel_tier(ps.drop_last(), false);
        assert forall|i: int| 0 <= i < cancel_tier(ps, true).len() implies (#[trigger] cancel_tier(ps, true)[i]).score == 7 by {
            if i < h.len() {
                assert(cancel_tier(ps, true)[i] == h[i]);
            }
        }
        assert forall|i: int| 0 <= i < cancel_tier(ps, false).len() implies (#[trigger] cancel_tier(ps, false)[i]).score == 5
            || cancel_tier(ps, false)[i].score == 3 by {
            if i < p.len() {
                assert(cancel_tier(ps, false)[i] == p[i]);
            }
        }
    }
}

} // verus!
