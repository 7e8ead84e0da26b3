use paper_search::commands::{
    cancel_event, error_event, existing_papers, export_papers, find_conversation, original_query, pick_conversation_id,
    record_refinement, record_search, refinement_context, remove_conversation, sort_newest_first, upsert_front,
    uuid_from_bytes, uuid_v4,
};
use paper_search::types::{Conversation, ConversationMessage, Paper, ScoredPaper, SearchResult, TieredResults};

fn paper(id: &str, title: &str, authors: &[&str]) -> Paper {
    Paper {
        id: id.to_string(),
        title: title.to_string(),
        authors: authors.iter().map(|a| a.to_string()).collect(),
        year: 2017,
        venue: "NeurIPS".to_string(),
        doi: "10.5555/1".to_string(),
        abstract_text: String::new(),
        citation_count: 1000,
        url: "https://doi.org/10.5555/1".to_string(),
    }
}

fn scored(p: Paper, score: u8) -> ScoredPaper {
    ScoredPaper { paper: p, score, rationale: String::new() }
}

fn result(summary: &str, high: Vec<ScoredPaper>, partial: Vec<ScoredPaper>) -> SearchResult {
    SearchResult {
        conversation_id: String::new(),
        summary: summary.to_string(),
        tiers: TieredResults { high_relevance: high, partial_relevance: partial },
        total_candidates: 0,
        rounds_used: 1,
        needs_clarification: false,
        clarification_options: vec![],
    }
}

fn msg(role: &str, content: &str) -> ConversationMessage {
    ConversationMessage { role: role.to_string(), content: content.to_string(), timestamp: 1 }
}

fn conversation(id: &str, created_at: u64, messages: Vec<ConversationMessage>, results: Vec<SearchResult>) -> Conversation {
    Conversation { id: id.to_string(), title: id.to_string(), messages, search_results: results, created_at }
}

#[test]
fn export_bibtex() {
    let papers = vec![scored(paper("W1", "Attention", &["Ashish Vaswani", "Noam Shazeer"]), 9), scored(paper("W2", "NoAuthors", &[]), 5)];
    let out = export_papers(&papers, "bibtex").unwrap();
    let expected = "@article{Vaswani2017_0,\n  title = {Attention},\n  author = {Ashish Vaswani and Noam Shazeer},\n  year = {2017},\n  journal = {NeurIPS},\n  doi = {10.5555/1},\n  url = {https://doi.org/10.5555/1}\n}\n\n\
@article{unknown2017_1,\n  title = {NoAuthors},\n  author = {},\n  year = {2017},\n  journal = {NeurIPS},\n  doi = {10.5555/1},\n  url = {https://doi.org/10.5555/1}\n}\n\n";
    assert_eq!(out, expected);
}

#[test]
fn export_bibtex_blank_author_has_unknown_key() {
    let papers = vec![scored(paper("W1", "T", &["   "]), 9)];
    let out = export_papers(&papers, "bibtex").unwrap();
    assert!(out.starts_with("@article{unknown2017_0,"));
}

#[test]
fn export_markdown() {
    let papers = vec![scored(paper("W1", "Attention", &["Ashish Vaswani"]), 9), scored(paper("W2", "Other", &[]), 4)];
    let out = export_papers(&papers, "markdown").unwrap();
    let expected = "| # | Title | Authors | Year | Venue | Citations | Score |\n|---|-------|---------|------|-------|-----------|-------|\n\
| 1 | Attention | Ashish Vaswani | 2017 | NeurIPS | 1000 | 9 |\n| 2 | Other |  | 2017 | NeurIPS | 1000 | 4 |\n";
    assert_eq!(out, expected);
}

#[test]
fn export_unknown_format() {
    assert_eq!(export_papers(&vec![], "csv").unwrap_err(), "Unsupported format. Use 'bibtex' or 'markdown'.");
    assert_eq!(export_papers(&vec![], "bibtex").unwrap(), "");
}

#[test]
fn uuid_from_zero_bytes() {
    assert_eq!(uuid_from_bytes(&vec![0u8; 16]), "00000000-0000-4000-8000-000000000000");
    assert_eq!(uuid_from_bytes(&vec![0xffu8; 16]), "ffffffff-ffff-4fff-bfff-ffffffffffff");
}

#[test]
fn uuid_v4_has_the_uuid_shape() {
    let id = uuid_v4();
    assert_eq!(id.len(), 36);
    let cs: Vec<char> = id.chars().collect();
    for i in [8, 13, 18, 23] {
        assert_eq!(cs[i], '-');
    }
    assert_eq!(cs[14], '4');
    assert!(['8', '9', 'a', 'b'].contains(&cs[19]));
    assert_eq!(pick_conversation_id(Some("given".to_string())), "given");
    assert_eq!(pick_conversation_id(None).len(), 36);
}

#[test]
fn refinement_context_with_and_without_a_chain() {
    let c = conversation("c", 1, vec![msg("user", "moe"), msg("result", "s"), msg("user", "2024 only"), msg("user", "top venues")], vec![]);
    assert_eq!(original_query(Some(&c), "x"), "moe");
    assert_eq!(refinement_context(Some(&c), "surveys"), "之前的细化链: 2024 only → top venues\n当前最新细化: surveys");
    let first = conversation("d", 1, vec![msg("user", "moe")], vec![]);
    assert_eq!(refinement_context(Some(&first), "surveys"), "用户细化要求: surveys");
    assert_eq!(refinement_context(None, "surveys"), "用户细化要求: surveys");
    assert_eq!(original_query(None, "surveys"), "surveys");
    let empty = conversation("e", 1, vec![msg("result", "s")], vec![]);
    assert_eq!(original_query(Some(&empty), "r"), "r");
}

#[test]
fn existing_papers_collects_every_result() {
    let r1 = result("a", vec![scored(paper("H1", "h", &[]), 9)], vec![scored(paper("P1", "p", &[]), 5)]);
    let r2 = result("b", vec![scored(paper("H2", "h", &[]), 8)], vec![]);
    let c = conversation("c", 1, vec![], vec![r1, r2]);
    let ids: Vec<String> = existing_papers(Some(&c)).iter().map(|p| p.id.clone()).collect();
    assert_eq!(ids, vec!["H1".to_string(), "P1".to_string(), "H2".to_string()]);
    assert!(existing_papers(None).is_empty());
}

#[test]
fn record_search_makes_a_conversation() {
    let query = "a".repeat(60);
    let (r, c) = record_search(result("sum", vec![], vec![]), "cid".to_string(), query.clone(), 99);
    assert_eq!(r.conversation_id, "cid");
    assert_eq!(c.id, "cid");
    assert_eq!(c.title, "a".repeat(50));
    assert_eq!(c.messages.len(), 2);
    assert_eq!((c.messages[0].role.as_str(), c.messages[0].content.as_str()), ("user", query.as_str()));
    assert_eq!((c.messages[1].role.as_str(), c.messages[1].content.as_str()), ("result", "sum"));
    assert_eq!(c.search_results.len(), 1);
    assert_eq!(c.search_results[0].conversation_id, "cid");
    assert_eq!(c.created_at, 99);
}

#[test]
fn record_refinement_extends_or_creates() {
    let (r, c) = record_refinement(None, "cid".to_string(), "only 2024".to_string(), result("s2", vec![], vec![]), 7);
    assert_eq!(r.conversation_id, "cid");
    assert_eq!(c.title, "only 2024");
    assert_eq!(c.messages.len(), 2);
    assert_eq!(c.created_at, 7);
    let (_, c2) = record_refinement(Some(c), "cid".to_string(), "more".to_string(), result("s3", vec![], vec![]), 8);
    assert_eq!(c2.messages.len(), 4);
    assert_eq!(c2.messages[2].content, "more");
    assert_eq!(c2.search_results.len(), 2);
    assert_eq!(c2.created_at, 7);
}

#[test]
fn conversation_list_operations() {
    let mut cs = vec![conversation("a", 1, vec![], vec![]), conversation("b", 2, vec![], vec![]), conversation("a", 3, vec![], vec![])];
    assert_eq!(find_conversation(&cs, "b"), Some(1));
    assert_eq!(find_conversation(&cs, "z"), None);
    upsert_front(&mut cs, conversation("a", 9, vec![], vec![]));
    let ids: Vec<(String, u64)> = cs.iter().map(|c| (c.id.clone(), c.created_at)).collect();
    assert_eq!(ids, vec![("a".to_string(), 9), ("b".to_string(), 2)]);
    remove_conversation(&mut cs, "a");
    assert_eq!(cs.len(), 1);
    assert_eq!(cs[0].id, "b");
}

#[test]
fn conversations_sorted_newest_first() {
    let cs = vec![
        conversation("old", 1, vec![], vec![]),
        conversation("new", 5, vec![], vec![]),
        conversation("mid1", 3, vec![], vec![]),
        conversation("mid2", 3, vec![], vec![]),
    ];
    let sorted = sort_newest_first(cs);
    let ids: Vec<&str> = sorted.iter().map(|c| c.id.as_str()).collect();
    assert_eq!(ids, vec!["new", "mid1", "mid2", "old"]);
}

#[test]
fn command_events() {
    let e = error_event("boom");
    assert_eq!((e.phase.as_str(), e.message.as_str(), e.percent, e.detail.as_str(), e.tokens), ("error", "boom", 0, "", 0));
    let c = cancel_event();
    assert_eq!((c.phase.as_str(), c.message.as_str()), ("cancelled", "用户取消了搜索"));
}
