use paper_search::orchestrator::{batch_prompt, build_partial_result, drop_papers, opening_message, parse_batch_scores};
use paper_search::query_decomposer::QueryDecomposer;
use paper_search::ranker::{Ranker, ScoreRun};
use paper_search::result_organizer::ResultOrganizer;
use paper_search::types::{Paper, ScoredPaper, TieredResults};

fn paper(id: &str, title: &str, year: u32, abstract_text: &str) -> Paper {
    Paper {
        id: id.to_string(),
        title: title.to_string(),
        authors: vec!["Grace Hopper".to_string()],
        year,
        venue: "V".to_string(),
        doi: "N/A".to_string(),
        abstract_text: abstract_text.to_string(),
        citation_count: 1,
        url: String::new(),
    }
}

fn scored(id: &str, title: &str, score: u8) -> ScoredPaper {
    ScoredPaper { paper: paper(id, title, 2020, ""), score, rationale: String::new() }
}

#[test]
fn partition_splits_and_orders_tiers() {
    let tiers = Ranker::partition(vec![
        scored("a", "A", 7),
        scored("b", "B", 3),
        scored("c", "C", 9),
        scored("d", "D", 5),
        scored("e", "E", 7),
        scored("f", "F", 6),
    ]);
    let high: Vec<(&str, u8)> = tiers.high_relevance.iter().map(|s| (s.paper.id.as_str(), s.score)).collect();
    let partial: Vec<(&str, u8)> = tiers.partial_relevance.iter().map(|s| (s.paper.id.as_str(), s.score)).collect();
    assert_eq!(high, vec![("c", 9), ("a", 7), ("e", 7)]);
    assert_eq!(partial, vec![("f", 6), ("d", 5)]);
}

#[test]
fn fast_filter_keeps_keyword_matches_in_range() {
    let plan = QueryDecomposer::read_plan(
        r#"{"sub_queries":[{"query":"Graph Neural"},{"query":"attention"}],"year_range":[2018,2022]}"#,
        "q",
    )
    .unwrap();
    let papers = vec![
        paper("a", "Graphs everywhere", 2020, ""),
        paper("b", "Nothing here", 2020, "uses ATTENTION heads"),
        paper("c", "Neural nets", 2010, ""),
        paper("d", "Plain", 2021, "none"),
    ];
    let kept = Ranker::fast_filter(papers, &plan);
    let ids: Vec<&str> = kept.iter().map(|p| p.id.as_str()).collect();
    assert_eq!(ids, vec!["a", "b"]);
}

#[test]
fn parse_scores_keeps_raw_scores_and_batch_scores_clamp() {
    let ps = vec![paper("a", "A", 2020, ""), paper("b", "B", 2020, "")];
    let content = r#"{"scores":[{"index":1,"score":300,"rationale":"r"},{"index":5,"score":9},{"score":0}]}"#;
    let raw = Ranker::parse_scores(content, &ps).unwrap();
    assert_eq!(raw.len(), 2);
    assert_eq!((raw[0].paper.id.as_str(), raw[0].score, raw[0].rationale.as_str()), ("b", 44, "r"));
    assert_eq!((raw[1].paper.id.as_str(), raw[1].score), ("a", 0));
    let clamped = parse_batch_scores(content, &ps).unwrap();
    assert_eq!(clamped[0].score, 10);
    assert_eq!(clamped[1].score, 1);
    assert!(Ranker::parse_scores("no", &ps).is_err());
}

#[test]
fn score_prompt_lists_the_batch() {
    let ps = vec![paper("a", "A", 2020, "abs")];
    assert_eq!(
        Ranker::score_prompt(&ps, "q"),
        "原始查询: q\n论文列表:\n[0] Title: A\nAuthors: Grace Hopper\nYear: 2020\nVenue: V\nAbstract: abs"
    );
    assert_eq!(
        batch_prompt(&ps, "q"),
        "用户查询: q\n\n论文列表:\n[0] Title: A\nAuthors: Grace Hopper\nYear: 2020 | Venue: V | Citations: 1\nAbstract: abs"
    );
}

#[test]
fn score_run_scores_batches_in_order() {
    let ps: Vec<Paper> = (0..25).map(|i| paper(&format!("p{}", i), "T", 2020, "")).collect();
    let mut run = ScoreRun::new(ps, "q");
    let first = run.next_prompt().unwrap();
    assert!(first.contains("[19] Title"));
    assert!(!first.contains("[20] Title"));
    run.on_reply(r#"{"scores":[{"index":3,"score":8}]}"#, 5).unwrap();
    let second = run.next_prompt().unwrap();
    assert!(second.contains("[4] Title"));
    assert!(!second.contains("[5] Title"));
    run.on_reply(r#"{"scores":[{"index":4,"score":6}]}"#, 7).unwrap();
    assert!(run.next_prompt().is_none());
    assert_eq!(run.tokens, 12);
    let ids: Vec<&str> = run.scored.iter().map(|s| s.paper.id.as_str()).collect();
    assert_eq!(ids, vec!["p3", "p24"]);
}

#[test]
fn build_graph_links_similar_titles() {
    let tiers = TieredResults {
        high_relevance: vec![scored("a", "Sparse Mixture Experts Routing", 9), scored("b", "Routing Sparse Mixture Models", 8)],
        partial_relevance: vec![scored("c", "Something else entirely", 5)],
    };
    let g = ResultOrganizer::build_graph(&tiers);
    assert_eq!(g.nodes.len(), 3);
    assert_eq!(g.nodes[0].cluster, 0);
    assert_eq!(g.nodes[2].cluster, 1);
    assert_eq!(g.edges.len(), 1);
    assert_eq!((g.edges[0].source, g.edges[0].target), (0, 1));
    assert_eq!(g.edges[0].relation, "topic_similarity");
}

#[test]
fn summary_prompt_samples_ten_papers() {
    let high: Vec<ScoredPaper> = (0..12).map(|i| scored(&format!("h{}", i), &format!("H{}", i), 8)).collect();
    let tiers = TieredResults { high_relevance: high, partial_relevance: vec![scored("p", "P", 5)] };
    let prompt = ResultOrganizer::summary_prompt(&tiers, "moe");
    assert!(prompt.starts_with("查询: moe\n高度相关(12):\n- H0 (2020)\n- H1 (2020)"));
    assert!(prompt.contains("- H9 (2020)\n部分相关(1)\n请总结主要研究方向。"));
    assert!(!prompt.contains("H10"));
    let r = ResultOrganizer::assemble_result("s".to_string(), tiers, 13, 4);
    assert_eq!((r.summary.as_str(), r.total_candidates, r.rounds_used, r.needs_clarification), ("s", 13, 4, false));
}

#[test]
fn drop_papers_ignores_positions_outside_the_pool() {
    let mut ps: Vec<Paper> = (0..4).map(|i| paper(&format!("p{}", i), "T", 2020, "")).collect();
    let dropped = drop_papers(&mut ps, &vec![3, 1, 1, 9]);
    assert_eq!(dropped, 2);
    let ids: Vec<&str> = ps.iter().map(|p| p.id.as_str()).collect();
    assert_eq!(ids, vec!["p0", "p2"]);
}

#[test]
fn partial_result_takes_thirty_most_cited() {
    let ps: Vec<Paper> = (0..40)
        .map(|i| {
            let mut p = paper(&format!("p{}", i), "T", 2020, "");
            p.citation_count = i;
            p
        })
        .collect();
    let (res, events) = build_partial_result(ps, 2, 50);
    let res = res.unwrap();
    assert_eq!(res.total_candidates, 30);
    assert_eq!(res.tiers.high_relevance.len(), 0);
    assert_eq!(res.tiers.partial_relevance[0].paper.id, "p39");
    assert_eq!(res.tiers.partial_relevance[29].paper.id, "p10");
    assert_eq!(res.tiers.partial_relevance[29].score, 3);
    assert_eq!(res.tiers.partial_relevance[0].score, 5);
    assert_eq!(events[0].message, "⚠️ 搜索被取消 — 30 篇论文 · 50 Token");
}

#[test]
fn opening_message_for_a_refined_pool() {
    let mut a = paper("a", "A", 2021, "");
    a.venue = "ICLR".to_string();
    let mut b = paper("b", "B", 2019, "");
    b.venue = "ICLR".to_string();
    let c = paper("c", "C", 0, "");
    let msg = opening_message("moe", Some("只看2021"), &vec![a, b, c]);
    assert!(msg.starts_with("ORIGINAL QUERY: moe\n\nREFINEMENT: 只看2021\n\nEXISTING POOL: 3 papers\n  Years: 2019 - 2021\n  Top venues: ICLR (2), V (1)\n\n⛔ MANDATORY"));
    let fresh = opening_message("moe", Some("只看2021"), &vec![]);
    assert!(fresh.starts_with("ORIGINAL QUERY: moe\n\nREFINEMENT: 只看2021\n\nInterpret the refinement"));
}
