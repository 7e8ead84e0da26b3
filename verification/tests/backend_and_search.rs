use paper_search::json::parse_json;
use paper_search::openalex::OpenAlexBackend;
use paper_search::query_decomposer::QueryDecomposer;
use paper_search::search_engine::{CitationFetch, SearchEngine};
use paper_search::types::Paper;

fn paper(id: &str, title: &str, doi: &str, cites: u32) -> Paper {
    Paper {
        id: id.to_string(),
        title: title.to_string(),
        authors: vec![],
        year: 2020,
        venue: "V".to_string(),
        doi: doi.to_string(),
        abstract_text: "abc".to_string(),
        citation_count: cites,
        url: String::new(),
    }
}

#[test]
fn search_url_percent_encodes_the_query() {
    assert_eq!(
        OpenAlexBackend::search_url("graph nets & co~é", 15),
        "https://api.openalex.org/works?search=graph%20nets%20%26%20co~%C3%A9&per_page=15&sort=relevance_score:desc"
    );
    assert_eq!(
        OpenAlexBackend::citing_url("https://openalex.org/W1", 10),
        "https://api.openalex.org/works?filter=cites:https://openalex.org/W1&per_page=10&sort=cited_by_count:desc"
    );
    assert_eq!(
        OpenAlexBackend::references_url("W9", 3),
        "https://api.openalex.org/works?filter=cited_by:W9&per_page=3&sort=cited_by_count:desc"
    );
    assert_eq!(OpenAlexBackend::name(), "openalex");
}

#[test]
fn parse_work_reads_a_work() {
    let w = parse_json(
        r#"{"id":"https://openalex.org/W1","doi":"https://doi.org/10.1/x","title":"Sparse experts",
            "publication_year":2021,"cited_by_count":77,
            "authorships":[{"author":{"display_name":"Noam Shazeer"}},{"author":{}},{"author":{"display_name":"Jeff Dean"}}],
            "primary_location":{"source":{"display_name":"ICLR"}},
            "abstract_inverted_index":{"experts":[1],"Mixture":[0],"of":[3],"scale":[2]}}"#,
    )
    .unwrap();
    let p = OpenAlexBackend::parse_work(&w).unwrap();
    assert_eq!(p.id, "https://openalex.org/W1");
    assert_eq!(p.doi, "https://doi.org/10.1/x");
    assert_eq!(p.title, "Sparse experts");
    assert_eq!(p.year, 2021);
    assert_eq!(p.citation_count, 77);
    assert_eq!(p.authors, vec!["Noam Shazeer".to_string(), "Jeff Dean".to_string()]);
    assert_eq!(p.venue, "ICLR");
    assert_eq!(p.abstract_text, "Mixture experts scale of");
    assert_eq!(p.url, "https://doi.org/https://doi.org/10.1/x");
}

#[test]
fn parse_work_defaults_and_rejections() {
    let w = parse_json(r#"{"id":"W2","title":"T","authorships":[]}"#).unwrap();
    let p = OpenAlexBackend::parse_work(&w).unwrap();
    assert_eq!(p.doi, "N/A");
    assert_eq!(p.venue, "Unknown");
    assert_eq!(p.year, 0);
    assert_eq!(p.abstract_text, "No abstract available.");
    assert_eq!(p.url, "https://doi.org/N/A");
    let no_title = parse_json(r#"{"id":"W3","authorships":[]}"#).unwrap();
    assert!(OpenAlexBackend::parse_work(&no_title).is_none());
    let no_authorships = parse_json(r#"{"id":"W3","title":"T"}"#).unwrap();
    assert!(OpenAlexBackend::parse_work(&no_authorships).is_none());
}

#[test]
fn rebuild_abstract_orders_ties_by_word() {
    let inv = parse_json(r#"{"b":[1,0],"a":[1],"c":["x",2]}"#).unwrap();
    assert_eq!(OpenAlexBackend::rebuild_abstract(&inv), "b a b c");
}

#[test]
fn rebuild_abstract_cuts_after_500_bytes() {
    let mut members = Vec::new();
    for i in 0..120 {
        members.push(format!("\"w{:03}\":[{}]", i, i));
    }
    let inv = parse_json(&format!("{{{}}}", members.join(","))).unwrap();
    assert!(OpenAlexBackend::abstract_rebuildable(&inv));
    let text = OpenAlexBackend::rebuild_abstract(&inv);
    let full: Vec<String> = (0..120).map(|i| format!("w{:03}", i)).collect();
    let full = full.join(" ");
    assert_eq!(text, format!("{}...", &full[..500]));
}

#[test]
fn abstract_cut_inside_a_character_is_refused() {
    let word = "é".repeat(300);
    let inv = parse_json(&format!("{{\"x{}\":[0]}}", word)).unwrap();
    assert!(!OpenAlexBackend::abstract_rebuildable(&inv));
    let reply = parse_json(&format!(
        "{{\"results\":[{{\"id\":\"W\",\"title\":\"T\",\"authorships\":[],\"abstract_inverted_index\":{{\"x{}\":[0]}}}}]}}",
        word
    ))
    .unwrap();
    assert!(!OpenAlexBackend::results_readable(&reply));
}

#[test]
fn parse_results_keeps_readable_works() {
    let reply = parse_json(
        r#"{"results":[{"id":"W1","title":"A","authorships":[]},{"title":"no id"},{"id":"W2","title":"B","authorships":[]}]}"#,
    )
    .unwrap();
    assert!(OpenAlexBackend::results_readable(&reply));
    let ps = OpenAlexBackend::parse_results(&reply);
    let ids: Vec<&str> = ps.iter().map(|p| p.id.as_str()).collect();
    assert_eq!(ids, vec!["W1", "W2"]);
    assert!(OpenAlexBackend::parse_results(&parse_json("{}").unwrap()).is_empty());
}

#[test]
fn merge_dedup_skips_known_keys_only() {
    let mut existing = vec![paper("W1", "Attention Is All You Need", "N/A", 1), paper("W2", "X", "10.1/x", 1)];
    let new = vec![
        paper("W3", "ATTENTION IS ALL YOU NEED", "", 1),
        paper("W4", "Other", "10.1/x", 1),
        paper("W5", "Fresh", "10.1/y", 1),
        paper("W6", "Fresh again", "10.1/y", 1),
    ];
    SearchEngine::merge_dedup(&mut existing, new);
    let ids: Vec<&str> = existing.iter().map(|p| p.id.as_str()).collect();
    assert_eq!(ids, vec!["W1", "W2", "W5", "W6"]);
}

#[test]
fn merging_twice_adds_nothing_more() {
    let mut existing = vec![paper("W1", "A", "10.1/a", 1)];
    let new = vec![paper("W2", "B", "10.1/b", 1), paper("W3", "A", "10.1/a", 1)];
    SearchEngine::merge_dedup(&mut existing, new.clone());
    let once = existing.len();
    SearchEngine::merge_dedup(&mut existing, new);
    assert_eq!(existing.len(), once);
    assert_eq!(once, 2);
}

#[test]
fn phase1_absorb_counts_each_key_once() {
    let mut all = Vec::new();
    let mut seen = Vec::new();
    SearchEngine::phase1_absorb(&mut all, &mut seen, vec![paper("W1", "T", "N/A", 1), paper("W2", "t", "N/A", 1)]);
    SearchEngine::phase1_absorb(&mut all, &mut seen, vec![paper("W3", "U", "10.1/u", 1)]);
    let ids: Vec<&str> = all.iter().map(|p| p.id.as_str()).collect();
    assert_eq!(ids, vec!["W1", "W3"]);
    assert_eq!(seen, vec!["t".to_string(), "10.1/u".to_string()]);
}

#[test]
fn phase2_prompt_lists_thirty_papers() {
    let mut ps = Vec::new();
    for i in 0..35 {
        let mut p = paper(&format!("W{}", i), &format!("T{}", i), "N/A", 1);
        p.abstract_text = "a".repeat(210);
        ps.push(p);
    }
    assert!(SearchEngine::phase2_ready(&ps));
    let prompt = SearchEngine::phase2_prompt("gnn", &ps);
    assert!(prompt.starts_with(&format!("原始查询: gnn\n已有论文(部分):\n- T0 (2020): {}\n- T1", "a".repeat(200))));
    assert!(prompt.contains("- T29 (2020)"));
    assert!(!prompt.contains("- T30 (2020)"));
    assert!(prompt.ends_with("\n请找出遗漏的子主题，生成新的搜索关键词。"));
    let mut bad = paper("W", "T", "N/A", 1);
    bad.abstract_text = format!("{}é", "a".repeat(199));
    assert!(!SearchEngine::phase2_ready(&[bad]));
}

#[test]
fn parse_new_queries_reads_strings() {
    assert_eq!(
        SearchEngine::parse_new_queries(r#"{"new_queries":["a b", 3, "c"]}"#).unwrap(),
        vec!["a b".to_string(), "c".to_string()]
    );
    assert!(SearchEngine::parse_new_queries("[]").unwrap().is_empty());
    assert!(SearchEngine::parse_new_queries("nope").is_err());
}

#[test]
fn citation_expansion_plans_fetches() {
    let mut ps = Vec::new();
    for i in 0..12 {
        ps.push(paper(&format!("W{}", i), "T", "N/A", if i % 2 == 0 { 500 } else { 5 }));
    }
    let plan = SearchEngine::citation_expansion(&ps);
    assert_eq!(plan.len(), 15);
    match &plan[0] {
        CitationFetch::References { paper_id, max_results } => {
            assert_eq!(paper_id, "W0");
            assert_eq!(*max_results, 10);
        }
        other => panic!("unexpected {:?}", other),
    }
    assert!(matches!(&plan[1], CitationFetch::Citing { paper_id, .. } if paper_id == "W0"));
    assert!(matches!(&plan[2], CitationFetch::References { paper_id, .. } if paper_id == "W1"));
    assert!(matches!(&plan[14], CitationFetch::References { paper_id, .. } if paper_id == "W9"));
}

#[test]
fn read_plan_reads_sub_queries_and_constraints() {
    let plan = QueryDecomposer::read_plan(
        r#"{"sub_queries":[{"query":"moe routing","dimension":"theory","weight":0.9},{"weight":"high"}],
            "year_range":[2020,2024],"venues":["NeurIPS",1],"methodology_required":[]}"#,
        "moe",
    )
    .unwrap();
    assert_eq!(plan.original, "moe");
    assert_eq!(plan.sub_queries.len(), 2);
    assert_eq!(plan.sub_queries[0].query, "moe routing");
    assert_eq!(plan.sub_queries[0].dimension, "theory");
    assert!(plan.sub_queries[0].weight.as_u64().is_none());
    assert_eq!(plan.sub_queries[1].query, "");
    assert_eq!(plan.sub_queries[1].dimension, "methodology");
    assert_eq!(plan.sub_queries[1].weight.as_str(), Some("high"));
    assert_eq!(plan.constraints.year_range, Some((2020, 2024)));
    assert_eq!(plan.constraints.venues, vec!["NeurIPS".to_string()]);
    let plan = QueryDecomposer::read_plan(r#"{"year_range":[2020]}"#, "q").unwrap();
    assert_eq!(plan.constraints.year_range, None);
    assert!(plan.sub_queries.is_empty());
    match QueryDecomposer::read_plan("not json", "q") {
        Err(e) => assert_eq!(e, "Failed to parse LLM JSON response"),
        Ok(_) => panic!("expected an error"),
    }
}
