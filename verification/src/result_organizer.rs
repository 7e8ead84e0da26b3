//! Organizing results: the summary prompt, the topic graph, and the final result.
use crate::text::{byte_count, dec, joined, string_views, words};
use crate::types::{GraphData, GraphEdge, GraphNode, ScoredPaper, SearchResult, TieredResults};
use vstd::prelude::*;

verus! {

/// Organizing the scored papers into the result shown to the user.
pub struct ResultOrganizer;

/// The system prompt of the summary.
pub const SUMMARY_SYSTEM: &'static str = "你是一个学术研究助手。请根据搜索结果，用2-3句话总结主要发现的研究方向和代表论文。用中文输出。";

/// The line of a highly relevant paper in the summary prompt.
pub open spec fn sample_line(s: ScoredPaper) -> Seq<char> {
    "- "@ + s.paper.title@ + " ("@ + dec(s.paper.year as nat) + ")"@
}

/// The summary prompt: the query, the number of papers of each tier, and the first
/// ten highly relevant papers.
pub open spec fn summary_prompt_text(tiers: TieredResults, query: Seq<char>) -> Seq<char> {
    let high = tiers.high_relevance@;
    let n = if high.len() < 10 {
        high.len()
    } else {
        10
    };
    "查询: "@ + query + "\n高度相关("@ + dec(high.len()) + "):\n"@ + joined(
        Seq::new(n, |i: int| sample_line(high[i])),
        "\n"@,
    ) + "\n部分相关("@ + dec(tiers.partial_relevance@.len()) + ")\n请总结主要研究方向。"@
}

/// The number of words of `a` longer than three bytes that also are words of `b`,
/// counted with repetition.
pub open spec fn common_words(a: Seq<Seq<char>>, b: Seq<Seq<char>>) -> nat
    decreases a.len(),
{
    if a.len() == 0 {
        0
    } else {
        common_words(a.drop_last(), b) + (if byte_count(a.last()) > 3 && b.contains(a.last()) {
            1nat
        } else {
            0nat
        })
    }
}

/// Whether two titles share at least three words longer than three bytes.
pub open spec fn similar_titles(t1: Seq<char>, t2: Seq<char>) -> bool {
    common_words(words(t1), words(t2)) >= 3
}

/// The pairs (i, j) with i < j < n whose first element is `i`, by increasing `j`.
pub open spec fn row(i: int, n: int) -> Seq<(int, int)> {
    Seq::new((if n > i + 1 {
        n - i - 1
    } else {
        0
    }) as nat, |k: int| (i, i + 1 + k))
}

/// The pairs (a, b) with a < i and a < b < n, in lexicographic order.
pub open spec fn pairs_upto(i: int, n: int) -> Seq<(int, int)>
    decreases i,
{
    if i <= 0 {
        seq![]
    } else {
        pairs_upto(i - 1, n) + row(i - 1, n)
    }
}

/// The pairs of papers whose titles are similar, in lexicographic order.
pub open spec fn similar_pairs(titles: Seq<Seq<char>>) -> Seq<(int, int)> {
    pairs_upto(titles.len() as int, titles.len() as int).filter(|p: (int, int)| similar_titles(titles[p.0], titles[p.1]))
}

/// The papers of both tiers, highly relevant first.
pub open spec fn all_scored(tiers: TieredResults) -> Seq<ScoredPaper> {
    tiers.high_relevance@ + tiers.partial_relevance@
}

/// Whether `g` is the topic graph of `tiers`: one node per paper (cluster 0 for a
/// score of 7 or more, else 1), and an edge "topic_similarity" for each similar pair.
pub open spec fn graph_ok(g: GraphData, tiers: TieredResults) -> bool {
    let all = all_scored(tiers);
    let titles = Seq::new(all.len(), |i: int| all[i].paper.title@);
    &&& g.nodes@.len() == all.len()
    &&& forall|i: int| 0 <= i < all.len() ==> {
        &&& (#[trigger] g.nodes@[i]).index == i
        &&& g.nodes@[i].title@ == all[i].paper.title@
        &&& g.nodes@[i].cluster == (if all[i].score >= 7 {
            0u8
        } else {
            1u8
        })
    }
    &&& g.edges@.len() == similar_pairs(titles).len()
    &&& forall|k: int| 0 <= k < g.edges@.len() ==> {
        &&& (#[trigger] g.edges@[k]).source == similar_pairs(titles)[k].0
        &&& g.edges@[k].target == similar_pairs(titles)[k].1
        &&& g.edges@[k].relation@ == "topic_similarity"@
    }
}

/// Counts the common long words of two word lists.
fn count_common(a: &Vec<String>, b: &Vec<String>) -> (res: u64)
    ensures
        res == common_words(string_views(a@), string_views(b@)),
{
    let mut c: u64 = 0;
    let mut i: usize = 0;
    while i < a.len()
        invariant
            i <= a@.len(),
            c == common_words(string_views(a@).take(i as int), string_views(b@)),
            c <= i,
        decreases a.len() - i,
    {
        assert(string_views(a@).take(i + 1).drop_last() =~= string_views(a@).take(i as int));
        if a[i].as_str().len() > 3 && crate::tools::contains_string(b, a[i].as_str()) {
            c = c + 1;
        }
        i = i + 1;
    }
    assert(string_views(a@).take(a@.len() as int) =~= string_views(a@));
    c
}

impl ResultOrganizer {
    /// The user prompt of the summary of `tiers` for `original_query`.
    pub fn summary_prompt(tiers: &TieredResults, original_query: &str) -> (res: String)
        ensures
            res@ == summary_prompt_text(*tiers, original_query@),
    {
        let high = &tiers.high_relevance;
        let n: usize = if high.len() < 10 {
            high.len()
        } else {
            10
        };
        let ghost lines = Seq::new(n as nat, |i: int| sample_line(high@[i]));
        let mut sample: Vec<String> = Vec::new();
        let mut i: usize = 0;
        while i < n
            invariant
                i <= n <= high@.len(),
                lines == Seq::new(n as nat, |k: int| sample_line(high@[k])),
                string_views(sample@) == lines.take(i as int),
            decreases n - i,
        {
            let mut line = crate::text::owned("- ");
            line.append(high[i].paper.title.as_str());
            line.append(" (");
            crate::text::push_dec(&mut line, high[i].paper.year as u64);
            line.append(")");
            let ghost before = string_views(sample@);
            sample.push(line);
            assert(string_views(sample@) =~= before.push(line@));
            i = i + 1;
            assert(string_views(sample@) =~= lines.take(i as int));
        }
        assert(lines.take(n as int) =~= lines);
        let body = crate::text::join(&sample, "\n");
        let mut u = crate::text::owned("查询: ");
        u.append(original_query);
        u.append("\n高度相关(");
        crate::text::push_dec(&mut u, high.len() as u64);
        u.append("):\n");
        u.append(body.as_str());
        u.append("\n部分相关(");
        crate::text::push_dec(&mut u, tiers.partial_relevance.len() as u64);
        u.append(")\n请总结主要研究方向。");
        assert(u@ =~= summary_prompt_text(*tiers, original_query@));
        u
    }

    /// The topic graph of the results: a node per paper, and an edge between two papers
    /// whose titles share at least three words longer than three bytes.
    pub fn build_graph(tiers: &TieredResults) -> (res: GraphData)
        requires
            tiers.high_relevance@.len() + tiers.partial_relevance@.len() <= usize::MAX,
        ensures
            graph_ok(res, *tiers),
    {
        let ghost all = all_scored(*tiers);
        let ghost titles = Seq::new(all.len(), |i: int| all[i].paper.title@);
        let nh = tiers.high_relevance.len();
        let total = nh + tiers.partial_relevance.len();
        let mut nodes: Vec<GraphNode> = Vec::new();
        let mut title_words: Vec<Vec<String>> = Vec::new();
        let mut i: usize = 0;
        while i < total
            invariant
                i <= total,
                total == all.len(),
                nh == tiers.high_relevance@.len(),
                all == all_scored(*tiers),
                titles == Seq::new(all.len(), |k: int| all[k].paper.title@),
                nodes@.len() == i,
                title_words@.len() == i,
                forall|k: int| 0 <= k < i ==> {
                    &&& (#[trigger] nodes@[k]).index == k
                    &&& nodes@[k].title@ == all[k].paper.title@
                    &&& nodes@[k].cluster == (if all[k].score >= 7 {
                        0u8
                    } else {
                        1u8
                    })
                },
                forall|k: int| 0 <= k < i ==> string_views((#[trigger] title_words@[k])@) == words(titles[k]),
            decreases total - i,
        {
            let sp: &ScoredPaper = if i < nh {
                &tiers.high_relevance[i]
            } else {
                &tiers.partial_relevance[i - nh]
            };
            assert(*sp == all[i as int]);
            let cluster: u8 = if sp.score >= 7 {
                0
            } else {
                1
            };
            nodes.push(GraphNode { index: i, title: sp.paper.title.clone(), cluster });
            title_words.push(crate::text::split_ws(sp.paper.title.as_str()));
            i = i + 1;
        }
        let mut edges: Vec<GraphEdge> = Vec::new();
        let ghost sim = |p: (int, int)| similar_titles(titles[p.0], titles[p.1]);
        let ghost n = total as int;
        let mut a: usize = 0;
        assert(pairs_upto(0, n).filter(sim) =~= Seq::<(int, int)>::empty()) by {
            reveal_with_fuel(Seq::filter, 1);
        }
        while a < total
            invariant
                a <= total,
                n == total,
                total == all.len(),
                titles.len() == total,
                title_words@.len() == total,
                sim == (|p: (int, int)| similar_titles(titles[p.0], titles[p.1])),
                forall|k: int| 0 <= k < total ==> string_views((#[trigger] title_words@[k])@) == words(titles[k]),
                edges@.len() == pairs_upto(a as int, n).filter(sim).len(),
                forall|k: int| 0 <= k < edges@.len() ==> {
                    &&& (#[trigger] edges@[k]).source == pairs_upto(a as int, n).filter(sim)[k].0
                    &&& edges@[k].target == pairs_upto(a as int, n).filter(sim)[k].1
                    &&& edges@[k].relation@ == "topic_similarity"@
                },
            decreases total - a,
        {
            let mut b: usize = a + 1;
            let ghost base = pairs_upto(a as int, n);
            assert(row(a as int, n).take(0) =~= Seq::<(int, int)>::empty());
            assert(base + row(a as int, n).take(0) =~= base);
            while b < total
                invariant
                    a < b <= total,
                    n == total,
                    titles.len() == total,
                    title_words@.len() == total,
                    base == pairs_upto(a as int, n),
                    sim == (|p: (int, int)| similar_titles(titles[p.0], titles[p.1])),
                    forall|k: int| 0 <= k < total ==> string_views((#[trigger] title_words@[k])@) == words(titles[k]),
                    edges@.len() == (base + row(a as int, n).take(b - a - 1)).filter(sim).len(),
                    forall|k: int| 0 <= k < edges@.len() ==> {
                        &&& (#[trigger] edges@[k]).source == (base + row(a as int, n).take(b - a - 1)).filter(sim)[k].0
                        &&& edges@[k].target == (base + row(a as int, n).take(b - a - 1)).filter(sim)[k].1
                        &&& edges@[k].relation@ == "topic_similarity"@
                    },
                decreases total - b,
            {
                let ghost prev = base + row(a as int, n).take(b - a - 1);
                let ghost next = base + row(a as int, n).take(b - a);
                assert(next =~= prev.push((a as int, b as int)));
                let common = count_common(&title_words[a], &title_words[b]);
                let ghost e0 = edges@;
                proof {
                    reveal_with_fuel(Seq::filter, 1);
                    assert(next.drop_last() =~= prev);
                }
                if common >= 3 {
                    let rel = crate::text::owned("topic_similarity");
                    edges.push(GraphEdge { source: a, target: b, relation: rel });
                    assert(sim((a as int, b as int)));
                    assert(next.filter(sim) =~= prev.filter(sim).push((a as int, b as int)));
                } else {
                    assert(!sim((a as int, b as int)));
                    assert(next.filter(sim) =~= prev.filter(sim));
                }
                b = b + 1;
            }
            assert(row(a as int, n).take(b - a - 1) =~= row(a as int, n));
            assert(pairs_upto(a + 1, n) == base + row(a as int, n));
            a = a + 1;
        }
        let g = GraphData { nodes, edges };
        assert(similar_pairs(titles) == pairs_upto(n, n).filter(sim));
        g
    }

    /// The result of a finished search: its summary, tiers, count of candidates and
    /// rounds, with no conversation id and no clarification.
    pub fn assemble_result(summary: String, tiers: TieredResults, total_candidates: usize, rounds_used: u32) -> (res: SearchResult)
        ensures
            res.conversation_id@ == Seq::<char>::empty(),
            res.summary == summary,
            res.tiers == tiers,
            res.total_candidates == total_candidates,
            res.rounds_used == rounds_used,
            !res.needs_clarification,
            res.clarification_options@.len() == 0,
    {
        SearchResult {
            conversation_id: String::new(),
            summary,
            tiers,
            total_candidates,
            rounds_used,
            needs_clarification: false,
            clarification_options: Vec::new(),
        }
    }
}

/// The similarity count of two word lists is the number of words of the first, longer
/// than three bytes, that the second also holds: words of three bytes or fewer never
/// count, whatever the other list holds.
pub proof fn lemma_common_words_count(a: Seq<Seq<char>>, b: Seq<Seq<char>>)
    ensures
        common_words(a, b) == a.filter(|w: Seq<char>| byte_count(w) > 3 && b.contains(w)).len(),
    decreases a.len(),
{
    let f = |w: Seq<char>| byte_count(w) > 3 && b.contains(w);
    reveal_with_fuel(Seq::filter, 1);
    if a.len() > 0 {
        lemma_common_words_count(a.drop_last(), b);
    } else {
        assert(a.filter(f) =~= Seq::<Seq<char>>::empty());
    }
}

/// A word of three bytes or fewer adds nothing to the similarity count; a longer word
/// adds one exactly where the other list holds it.
pub proof fn lemma_common_words_push(a: Seq<Seq<char>>, w: Seq<char>, b: Seq<Seq<char>>)
    ensures
        byte_count(w) <= 3 ==> common_words(a.push(w), b) == common_words(a, b),
        byte_count(w) > 3 && b.contains(w) ==> common_words(a.push(w), b) == common_words(a, b) + 1,
        !b.contains(w) ==> common_words(a.push(w), b) == common_words(a, b),
{
    assert(a.push(w).drop_last() =~= a);
}

/// The pairs below `i` have `0 <= a < b < n`.
proof fn lemma_pairs_in_range(i: int, n: int)
    ensures
        forall|k: int| 0 <= k < pairs_upto(i, n).len() ==> 0 <= (#[trigger] pairs_upto(i, n)[k]).0 < pairs_upto(i, n)[k].1 < n,
    decreases i,
{
    if i > 0 {
        lemma_pairs_in_range(i - 1, n);
        let pre = pairs_upto(i - 1, n);
        let r = row(i - 1, n);
        assert forall|k: int| 0 <= k < pairs_upto(i, n).len() implies 0 <= (#[trigger] pairs_upto(i, n)[k]).0 < pairs_upto(i, n)[k].1 < n by {
            if k < pre.len() {
                assert(pairs_upto(i, n)[k] == pre[k]);
            } else {
                assert(pairs_upto(i, n)[k] == r[k - pre.len()]);
            }
        }
    }
}

/// Every edge of the topic graph joins two different papers whose titles share at least
/// three words longer than three bytes; titles that share fewer such words, whatever
/// shorter words they share, are never joined.
pub proof fn lemma_edges_share_long_words(g: GraphData, tiers: TieredResults)
    requires
        graph_ok(g, tiers),
    ensures
        forall|k: int| 0 <= k < g.edges@.len() ==> {
            let e = #[trigger] g.edges@[k];
            let all = all_scored(tiers);
            let t1 = words(all[e.source as int].paper.title@);
            let t2 = words(all[e.target as int].paper.title@);
            &&& e.source < e.target < all.len()
            &&& t1.filter(|w: Seq<char>| byte_count(w) > 3 && t2.contains(w)).len() >= 3
        },
{
    let all = all_scored(tiers);
    let titles = Seq::new(all.len(), |i: int| all[i].paper.title@);
    let n = titles.len() as int;
    let sim = |p: (int, int)| similar_titles(titles[p.0], titles[p.1]);
    let ps = pairs_upto(n, n);
    lemma_pairs_in_range(n, n);
    assert(similar_pairs(titles) == ps.filter(sim));
    assert forall|k: int| 0 <= k < g.edges@.len() implies {
        let e = #[trigger] g.edges@[k];
        let t1 = words(all[e.source as int].paper.title@);
        let t2 = words(all[e.target as int].paper.title@);
        &&& e.source < e.target < all.len()
        &&& t1.filter(|w: Seq<char>| byte_count(w) > 3 && t2.contains(w)).len() >= 3
    } by {
        let e = g.edges@[k];
        let p = ps.filter(sim)[k];
        ps.lemma_filter_pred(sim, k);
        assert(ps.filter(sim).contains(p));
        ps.lemma_filter_contains_rev(sim, p);
        let j = choose|j: int| 0 <= j < ps.len() && ps[j] == p;
        assert(0 <= ps[j].0 < ps[j].1 < n);
        assert(e.source == p.0 && e.target == p.1);
        assert(titles[p.0] == all[p.0].paper.title@);
        assert(titles[p.1] == all[p.1].paper.title@);
        lemma_common_words_count(words(titles[p.0]), words(titles[p.1]));
    }
}

} // verus!
