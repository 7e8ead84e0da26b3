use paper_search::progress::{count_papers_in_result, ev, fmt_tool_args};
use paper_search::tools::{
    agent_tools, complete_tool, finish_fetch, format_search_results, make_key, parse_clarify, parse_finish_message, plan_tool, ToolRequest, ToolStep,
};
use paper_search::types::{LlmMessage, Paper, ToolCall, ToolCallFunction, ToolDef};
use paper_search::json::json_str;

fn paper(id: &str, title: &str, doi: &str, authors: &[&str], abstract_text: &str) -> Paper {
    Paper {
        id: id.to_string(),
        title: title.to_string(),
        authors: authors.iter().map(|a| a.to_string()).collect(),
        year: 2023,
        venue: "ICML".to_string(),
        doi: doi.to_string(),
        abstract_text: abstract_text.to_string(),
        citation_count: 42,
        url: String::new(),
    }
}

#[test]
fn agent_tools_offer_five_tools() {
    let tools = agent_tools();
    let names: Vec<&str> = tools.iter().map(|t| t.function.name.as_str()).collect();
    assert_eq!(names, vec!["search_papers", "get_cited_papers", "get_references", "clarify_query", "finish_search"]);
    assert!(tools.iter().all(|t| t.tool_type == "function"));
    let required = tools[3].function.parameters.get("required").as_array().unwrap();
    let required: Vec<&str> = required.iter().map(|v| v.as_str().unwrap()).collect();
    assert_eq!(required, vec!["message", "options"]);
    let default = tools[0].function.parameters.get("properties").get("max_results").get("default").as_u64();
    assert_eq!(default, Some(15));
}

#[test]
fn tool_def_new_is_a_function_tool() {
    let t = ToolDef::new("x", "does x", json_str("schema"));
    assert_eq!(t.tool_type, "function");
    assert_eq!(t.function.name, "x");
    assert_eq!(t.function.description, "does x");
}

#[test]
fn make_key_prefers_the_doi() {
    assert_eq!(make_key(&paper("W1", "T", "10.1/x", &[], "")), "10.1/x");
    assert_eq!(make_key(&paper("W1", "T", "N/A", &[], "")), "W1");
    assert_eq!(make_key(&paper("W1", "T", "", &[], "")), "W1");
}

#[test]
fn format_search_results_lists_papers_from_the_start_index() {
    let long_abstract = "x".repeat(260);
    let papers = vec![
        paper("W1", "Alpha", "d1", &["A One", "B Two", "C Three", "D Four"], &long_abstract),
        paper("W2", "Beta", "d2", &["E Five"], "short"),
    ];
    let text = format_search_results("moe", &papers, 3);
    let expected = format!(
        "Search for \"moe\" returned 2 papers:\n[3] Alpha (2023)\n  Authors: A One et al. | Venue: ICML | Citations: 42\n  Abstract: {}...\n\n[4] Beta (2023)\n  Authors: E Five | Venue: ICML | Citations: 42\n  Abstract: short",
        "x".repeat(250)
    );
    assert_eq!(text, expected);
    assert_eq!(count_papers_in_result(&text), 2);
}

#[test]
fn format_search_results_without_papers() {
    let text = format_search_results("nothing", &[], 0);
    assert_eq!(text, "Search for \"nothing\" returned no results. Try different keywords.");
    assert_eq!(count_papers_in_result(&text), 0);
}

#[test]
fn count_papers_reads_the_number_after_returned() {
    assert_eq!(count_papers_in_result("returned 17 papers"), 17);
    assert_eq!(count_papers_in_result("Search returned 17 papers"), 17);
    assert_eq!(count_papers_in_result("x returned +5 y"), 5);
    assert_eq!(count_papers_in_result("no marker here"), 0);
    assert_eq!(count_papers_in_result("a returned 3 b returned 9"), 3);
}

#[test]
fn plan_tool_caps_the_limits() {
    let pool = vec![paper("W1", "Alpha", "d1", &[], "")];
    match plan_tool("search_papers", r#"{"query":"q","max_results":50}"#, &pool) {
        ToolStep::Fetch(ToolRequest::Search { query, max_results }) => {
            assert_eq!(query, "q");
            assert_eq!(max_results, 20);
        }
        other => panic!("unexpected {:?}", other),
    }
    match plan_tool("search_papers", "not json", &pool) {
        ToolStep::Fetch(ToolRequest::Search { query, max_results }) => {
            assert_eq!(query, "");
            assert_eq!(max_results, 15);
        }
        other => panic!("unexpected {:?}", other),
    }
    match plan_tool("get_references", r#"{"paper_index":0,"max_results":99}"#, &pool) {
        ToolStep::Fetch(ToolRequest::References { paper_index, paper_id, max_results }) => {
            assert_eq!(paper_index, 0);
            assert_eq!(paper_id, "W1");
            assert_eq!(max_results, 15);
        }
        other => panic!("unexpected {:?}", other),
    }
    match plan_tool("get_cited_papers", r#"{"paper_index":2}"#, &vec![]) {
        ToolStep::Answer(t) => assert_eq!(t, "Error: paper index 2 not found. Available indices: 0-0"),
        other => panic!("unexpected {:?}", other),
    }
}

#[test]
fn parse_clarify_reads_message_and_options() {
    let (m, o) = parse_clarify(r#"{"options":["a","b"]}"#).unwrap();
    assert_eq!(m, "请选择研究方向:");
    assert_eq!(o, vec!["a".to_string(), "b".to_string()]);
    assert!(parse_clarify("{oops").is_err());
}

#[test]
fn parse_finish_message_reads_drops() {
    let (m, d) = parse_finish_message(r#"{"message":"done","drop_indices":[3,"x",1]}"#).unwrap();
    assert_eq!(m, "done");
    assert_eq!(d, vec![3, 1]);
    let (m, d) = parse_finish_message("{}").unwrap();
    assert_eq!(m, "Search completed.");
    assert!(d.is_empty());
    assert!(parse_finish_message("").is_err());
}

#[test]
fn fmt_tool_args_describes_calls() {
    assert_eq!(fmt_tool_args("search_papers", r#"{"query":"gnn"}"#), "搜索关键词: 「gnn」 (最多 15 篇)");
    assert_eq!(fmt_tool_args("search_papers", "bad"), "搜索关键词: 「?」 (最多 15 篇)");
    assert_eq!(fmt_tool_args("get_cited_papers", r#"{"paper_index":4}"#), "查找引用了 [4] 的论文");
    assert_eq!(fmt_tool_args("get_references", "{}"), "查找 [0] 引用的论文");
    assert_eq!(fmt_tool_args("finish_search", "{}"), "检索阶段完成，开始评分…");
    assert_eq!(fmt_tool_args("other", "{\"a\":1}"), "{\"a\":1}");
}

#[test]
fn ev_builds_an_event() {
    let e = ev("rank", "msg", 55, "{}", 9);
    assert_eq!(e.phase, "rank");
    assert_eq!(e.message, "msg");
    assert_eq!(e.percent, 55);
    assert_eq!(e.detail, "{}");
    assert_eq!(e.tokens, 9);
}

#[test]
fn llm_message_constructors() {
    let s = LlmMessage::system("sys");
    assert_eq!((s.role.as_str(), s.content.as_deref()), ("system", Some("sys")));
    let u = LlmMessage::user("hi");
    assert_eq!(u.role, "user");
    let a = LlmMessage::assistant("ok");
    assert_eq!(a.role, "assistant");
    assert!(a.tool_calls.is_none());
    let call = ToolCall {
        id: "c".to_string(),
        call_type: "function".to_string(),
        function: ToolCallFunction { name: "n".to_string(), arguments: "{}".to_string() },
    };
    let t = LlmMessage::assistant_with_tools(vec![call]);
    assert!(t.content.is_none());
    assert_eq!(t.tool_calls.as_ref().unwrap().len(), 1);
    let r = LlmMessage::tool_result("c".to_string(), "res".to_string());
    assert_eq!(r.role, "tool");
    assert_eq!(r.tool_call_id.as_deref(), Some("c"));
    assert_eq!(r.content.as_deref(), Some("res"));
}

#[test]
fn added_papers_keep_seen_keys_equal_to_pool_keys() {
    let mut pool = vec![paper("W1", "First", "10.1/a", &["A"], "x")];
    let mut seen: Vec<String> = pool.iter().map(make_key).collect();
    let req = ToolRequest::Search { query: "moe".to_string(), max_results: 15 };
    let fetched = vec![
        paper("W2", "Second", "10.1/a", &["B"], "y"),
        paper("W3", "Third", "N/A", &["C"], "z"),
        paper("W4", "Fourth", "10.1/d", &["D"], "w"),
        paper("W5", "Fifth", "10.1/d", &["E"], "v"),
    ];
    let text = complete_tool(&req, fetched, &mut pool, &mut seen);
    let ids: Vec<&str> = pool.iter().map(|p| p.id.as_str()).collect();
    assert_eq!(ids, vec!["W1", "W3", "W4"]);
    let keys: Vec<String> = pool.iter().map(make_key).collect();
    assert_eq!(seen, keys);
    assert_eq!(count_papers_in_result(&text), 2);
}

#[test]
fn failed_fetch_counts_the_search_and_hands_back_its_error() {
    let mut pool = vec![paper("W1", "First", "10.1/a", &["A"], "x")];
    let mut seen: Vec<String> = pool.iter().map(make_key).collect();
    let mut searches: u32 = 3;
    let req = ToolRequest::Search { query: "moe".to_string(), max_results: 15 };
    let res: Result<String, String> = finish_fetch(&req, Err("timeout".to_string()), &mut pool, &mut seen, &mut searches);
    assert_eq!(res, Err("timeout".to_string()));
    assert_eq!(searches, 4);
    assert_eq!(pool.len(), 1);
    assert_eq!(seen, vec!["10.1/a".to_string()]);
}

#[test]
fn successful_fetch_counts_the_search_and_adds_new_papers() {
    let mut pool = vec![paper("W1", "First", "10.1/a", &["A"], "x")];
    let mut seen: Vec<String> = pool.iter().map(make_key).collect();
    let mut searches: u32 = 0;
    let req = ToolRequest::CitingPapers { paper_index: 0, paper_id: "W1".to_string(), max_results: 10 };
    let fetched = vec![paper("W1b", "Again", "10.1/a", &["B"], "y"), paper("W2", "Second", "10.1/b", &["C"], "z")];
    let res: Result<String, String> = finish_fetch(&req, Ok(fetched), &mut pool, &mut seen, &mut searches);
    let text = res.unwrap();
    assert_eq!(searches, 1);
    assert_eq!(pool.len(), 2);
    assert_eq!(pool[1].id, "W2");
    assert!(text.starts_with("Search for \"papers citing [0]\" returned 1 papers:\n"));
    assert_eq!(count_papers_in_result(&text), 1);
}
