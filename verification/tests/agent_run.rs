use paper_search::agent::{Action, AgentRun, Orchestrator, Stage};
use paper_search::config::AppConfig;
use paper_search::llm::ChatResponse;
use paper_search::tools::ToolRequest;
use paper_search::types::{Paper, ToolCall, ToolCallFunction};

fn paper(id: &str, title: &str, doi: &str, year: u32, cites: u32) -> Paper {
    Paper {
        id: id.to_string(),
        title: title.to_string(),
        authors: vec!["Ada Lovelace".to_string()],
        year,
        venue: "NeurIPS".to_string(),
        doi: doi.to_string(),
        abstract_text: "An abstract.".to_string(),
        citation_count: cites,
        url: format!("https://doi.org/{}", doi),
    }
}

fn call(id: &str, name: &str, args: &str) -> ToolCall {
    ToolCall {
        id: id.to_string(),
        call_type: "function".to_string(),
        function: ToolCallFunction { name: name.to_string(), arguments: args.to_string() },
    }
}

fn reply(text: Option<&str>, calls: Option<Vec<ToolCall>>, tokens: u32) -> ChatResponse {
    ChatResponse { content: text.map(|t| t.to_string()), tool_calls: calls, tokens }
}

fn start(query: &str, existing: &[Paper]) -> AgentRun {
    let config = AppConfig::default_config();
    let (run, _) = Orchestrator::start(query.to_string(), &config, None, existing);
    run
}

#[test]
fn start_fills_pool_without_repeated_keys() {
    let config = AppConfig::default_config();
    let existing = vec![
        paper("W1", "A", "10.1/a", 2020, 5),
        paper("W2", "B", "10.1/a", 2021, 5),
        paper("W3", "C", "N/A", 2022, 5),
    ];
    let (run, events) = Orchestrator::start("moe".to_string(), &config, None, &existing);
    assert_eq!(run.paper_list.len(), 2);
    assert_eq!(run.paper_list[0].id, "W1");
    assert_eq!(run.paper_list[1].id, "W3");
    assert_eq!(run.seen_keys, vec!["10.1/a".to_string(), "W3".to_string()]);
    assert_eq!(events.len(), 1);
    assert_eq!(events[0].phase, "agent_start");
    assert_eq!(events[0].message, "细化搜索 — 复用 2 篇已有论文 + 补充搜索");
    assert_eq!(events[0].percent, 5);
    assert_eq!(run.messages.len(), 2);
    assert_eq!(run.messages[0].role, "system");
    assert_eq!(run.messages[1].role, "user");
}

#[test]
fn start_message_of_a_new_query() {
    let config = AppConfig::default_config();
    let (run, events) = Orchestrator::start("mixture of experts".to_string(), &config, None, &[]);
    assert_eq!(events[0].message, "开始分析查询: 「mixture of experts」");
    let opening = run.messages[1].content.clone().unwrap();
    assert!(opening.starts_with("Research query: mixture of experts\n\nIf this query is ambiguous"));
}

#[test]
fn full_search_run() {
    let mut run = start("mixture of experts", &[]);
    let step = run.proceed(false);
    assert!(matches!(step.action, Action::CallLlm));
    let think = step.events.last().unwrap();
    assert_eq!(think.phase, "agent_think");
    assert_eq!(think.message, "🤔 Agent 思考中 (第 1 轮)…");
    assert_eq!(think.percent, 8);
    assert_eq!(think.detail, r#"{"llm_calls":0,"papers_so_far":0,"round":1,"search_calls":0}"#);

    let step = run.on_reply(reply(
        Some("Round 1: I will search for mixture of experts papers."),
        Some(vec![call("c1", "search_papers", r#"{"query":"mixture of experts","max_results":30}"#)]),
        100,
    ));
    assert!(matches!(step.action, Action::Proceed));
    assert_eq!(step.events.len(), 1);
    assert_eq!(step.events[0].phase, "agent_thought");
    assert_eq!(step.events[0].message, "Round 1: I will search for mixture of experts papers.");
    assert_eq!(run.llm_calls, 1);
    assert_eq!(run.total_tokens, 100);

    let step = run.proceed(false);
    match &step.action {
        Action::Fetch(ToolRequest::Search { query, max_results }) => {
            assert_eq!(query, "mixture of experts");
            assert_eq!(*max_results, 20);
        }
        other => panic!("unexpected action {:?}", other),
    }
    assert_eq!(step.events[0].phase, "tool_start");
    assert_eq!(step.events[0].message, "🔍 搜索关键词: 「mixture of experts」 (最多 30 篇)");
    assert_eq!(run.search_calls, 1);

    let a = paper("W1", "Sparse MoE", "10.1/a", 2021, 500);
    let b = paper("W2", "Dense baselines", "10.1/b", 2019, 20);
    let step = run.on_fetch(Ok(vec![a.clone(), b.clone(), a.clone()]));
    assert_eq!(step.events.len(), 1);
    assert_eq!(step.events[0].phase, "tool_done");
    assert_eq!(step.events[0].message, "📎 少量补充 → 找到 2 篇新论文 (共 2 篇)");
    assert_eq!(step.events[0].percent, 10);
    assert_eq!(run.paper_list.len(), 2);
    let answer = run.messages.last().unwrap();
    assert_eq!(answer.role, "tool");
    assert_eq!(answer.tool_call_id.as_deref(), Some("c1"));
    assert!(answer.content.clone().unwrap().starts_with("Search for \"mixture of experts\" returned 2 papers:\n[0] Sparse MoE (2021)"));

    let step = run.proceed(false);
    assert!(matches!(step.action, Action::Proceed));
    assert!(matches!(run.stage, Stage::RoundStart));

    let step = run.proceed(false);
    assert!(matches!(step.action, Action::CallLlm));
    let step = run.on_reply(reply(
        Some("The second paper is off topic; finishing."),
        Some(vec![call("c2", "finish_search", r#"{"message":"Good coverage.","drop_indices":[1, 7]}"#)]),
        40,
    ));
    assert!(matches!(step.action, Action::Proceed));
    let step = run.proceed(false);
    assert_eq!(step.events[0].message, "📝 搜索阶段完成，准备评分…");
    assert!(matches!(run.stage, Stage::Finishing { .. }));

    let step = run.proceed(false);
    let messages: Vec<String> = step.events.iter().map(|e| e.message.clone()).collect();
    assert_eq!(messages[0], "丢弃了 1 篇不相关论文，保留 1 篇");
    assert_eq!(messages[1], "Good coverage.");
    assert_eq!(messages[2], "⭐ AI 逐批评分为 1 篇论文打分 (1 批，每批 20 篇)…");
    assert_eq!(messages[3], "启动评分第 1/1 批 (1 篇)…");
    let prompts = match step.action {
        Action::ScoreBatches(p) => p,
        other => panic!("unexpected action {:?}", other),
    };
    assert_eq!(prompts.len(), 1);
    assert!(prompts[0].starts_with("用户查询: mixture of experts\n\n论文列表:\n[0] Title: Sparse MoE\n"));

    let step = run.on_scores(vec![Ok(reply(Some(r#"{"scores":[{"index":0,"score":12,"rationale":"核心论文"}]}"#), None, 60))]);
    assert_eq!(step.events[0].message, "评分完成 — 高度相关 1 篇 · 部分相关 0 篇");
    assert_eq!(step.events[0].percent, 88);
    assert_eq!(step.events[1].message, "📝 AI 生成搜索摘要…");
    match &step.action {
        Action::Summarize(p) => assert!(p.starts_with("查询: mixture of experts\n高度相关(1):\n- Sparse MoE (2021)")),
        other => panic!("unexpected action {:?}", other),
    }
    assert_eq!(run.total_tokens, 200);

    let step = run.on_summary(Ok(("Sparse experts dominate.".to_string(), 10)));
    assert_eq!(step.events[0].message, "✅ 完成 — 1 篇相关论文 · 2 轮搜索 · 210 Token");
    assert_eq!(step.events[0].percent, 100);
    match step.action {
        Action::Finish(Ok(res)) => {
            assert_eq!(res.summary, "Sparse experts dominate.");
            assert_eq!(res.tiers.high_relevance.len(), 1);
            assert_eq!(res.tiers.high_relevance[0].score, 10);
            assert_eq!(res.total_candidates, 1);
            assert_eq!(res.rounds_used, 2);
            assert!(!res.needs_clarification);
        }
        other => panic!("unexpected action {:?}", other),
    }
}

#[test]
fn cancelled_search_ranks_by_citations() {
    let existing = vec![
        paper("W1", "Low", "10.1/a", 2020, 3),
        paper("W2", "High", "10.1/b", 2021, 300),
        paper("W3", "Mid", "10.1/c", 2022, 30),
    ];
    let mut run = start("q", &existing);
    let step = run.proceed(true);
    assert_eq!(step.events[0].phase, "cancelled");
    assert_eq!(step.events[0].message, "搜索被用户取消");
    let last = step.events.last().unwrap();
    assert_eq!(last.message, "⚠️ 搜索被取消 — 3 篇论文 · 0 Token");
    match step.action {
        Action::Finish(Ok(res)) => {
            assert_eq!(res.tiers.high_relevance.len(), 1);
            assert_eq!(res.tiers.high_relevance[0].paper.id, "W2");
            assert_eq!(res.tiers.high_relevance[0].score, 7);
            let partial: Vec<(String, u8)> =
                res.tiers.partial_relevance.iter().map(|s| (s.paper.id.clone(), s.score)).collect();
            assert_eq!(partial, vec![("W3".to_string(), 5), ("W1".to_string(), 3)]);
            assert_eq!(res.summary, "搜索被取消。基于已收集的 3 篇论文按引用数排序。");
        }
        other => panic!("unexpected action {:?}", other),
    }
}

#[test]
fn cancelled_search_without_papers_fails() {
    let mut run = start("q", &[]);
    let step = run.proceed(true);
    match step.action {
        Action::Finish(Err(e)) => assert_eq!(e, "搜索被取消，未找到任何论文。"),
        other => panic!("unexpected action {:?}", other),
    }
}

#[test]
fn cancelled_search_with_no_model_budget_still_ends() {
    let mut config = AppConfig::default_config();
    config.budget.max_llm_calls = 0;
    let existing = vec![paper("W1", "Only", "10.1/a", 2020, 3)];
    let (mut run, _) = Orchestrator::start("q".to_string(), &config, None, &existing);
    let step = run.proceed(true);
    assert_eq!(step.events[0].phase, "budget_warn");
    assert_eq!(step.events[0].message, "LLM 调用次数已达上限 (0)，结束搜索阶段…");
    assert_eq!(step.events[1].phase, "cancelled");
    match step.action {
        Action::Finish(Ok(res)) => assert_eq!(res.tiers.partial_relevance.len(), 1),
        other => panic!("unexpected action {:?}", other),
    }
}

#[test]
fn clarify_ends_the_search_with_options() {
    let mut run = start("鲜花", &[]);
    run.proceed(false);
    run.on_reply(reply(
        None,
        Some(vec![call("c1", "clarify_query", r#"{"message":"方向很多","options":["保鲜","育种",3]}"#)]),
        5,
    ));
    let step = run.proceed(false);
    assert_eq!(step.events[0].message, "🔍 查询过于宽泛，需要用户选择方向…");
    assert_eq!(step.events[1].message, "请选择研究方向 (2 个选项)");
    match step.action {
        Action::Finish(Ok(res)) => {
            assert!(res.needs_clarification);
            assert_eq!(res.summary, "方向很多");
            assert_eq!(res.clarification_options, vec!["保鲜".to_string(), "育种".to_string()]);
            assert_eq!(res.rounds_used, 1);
        }
        other => panic!("unexpected action {:?}", other),
    }
}

#[test]
fn clarify_with_bad_arguments_is_answered_with_an_error() {
    let mut run = start("q", &[]);
    run.proceed(false);
    run.on_reply(reply(None, Some(vec![call("c1", "clarify_query", "not json")]), 5));
    let step = run.proceed(false);
    assert!(matches!(step.action, Action::Proceed));
    let last = run.messages.last().unwrap();
    assert_eq!(last.content.as_deref(), Some("Error parsing clarify options. Please try again with valid JSON."));
}

#[test]
fn reply_without_tools_is_nudged() {
    let mut run = start("q", &[]);
    run.proceed(false);
    let step = run.on_reply(reply(Some("ok"), None, 1));
    assert!(step.events.is_empty());
    assert_eq!(
        run.messages.last().unwrap().content.as_deref(),
        Some("Please use search_papers to find relevant papers, then call finish_search.")
    );
    assert!(matches!(run.stage, Stage::RoundStart));
}

#[test]
fn unknown_tool_and_bad_index_are_answered_at_once() {
    let mut run = start("q", &[paper("W1", "A", "10.1/a", 2020, 1)]);
    run.proceed(false);
    run.on_reply(reply(
        None,
        Some(vec![call("c1", "dance", "{}"), call("c2", "get_references", r#"{"paper_index":5}"#)]),
        1,
    ));
    let step = run.proceed(false);
    assert_eq!(step.events[1].message, "😕 未找到新结果 → 找到 0 篇新论文 (共 1 篇)");
    assert_eq!(run.messages.last().unwrap().content.as_deref(), Some("Unknown tool: dance"));
    run.proceed(false);
    assert_eq!(
        run.messages.last().unwrap().content.as_deref(),
        Some("Error: paper index 5 not found. Available indices: 0-0")
    );
    assert_eq!(run.search_calls, 0);
}

#[test]
fn failed_fetch_is_reported() {
    let mut run = start("q", &[paper("W1", "A", "10.1/a", 2020, 1)]);
    run.proceed(false);
    run.on_reply(reply(None, Some(vec![call("c1", "get_cited_papers", r#"{"paper_index":0}"#)]), 1));
    let step = run.proceed(false);
    match &step.action {
        Action::Fetch(ToolRequest::CitingPapers { paper_index, paper_id, max_results }) => {
            assert_eq!(*paper_index, 0);
            assert_eq!(paper_id, "W1");
            assert_eq!(*max_results, 10);
        }
        other => panic!("unexpected action {:?}", other),
    }
    let step = run.on_fetch(Err("timeout".to_string()));
    assert_eq!(step.events[0].phase, "tool_error");
    assert_eq!(step.events[0].message, "工具调用失败: timeout");
    assert_eq!(
        run.messages.last().unwrap().content.as_deref(),
        Some("Error: timeout. Please try a different approach.")
    );
}

#[test]
fn spent_budget_forces_the_end() {
    let mut config = AppConfig::default_config();
    config.budget.max_llm_calls = 1;
    config.budget.max_search_calls = 0;
    let (mut run, _) = Orchestrator::start("q".to_string(), &config, None, &[paper("W1", "A", "10.1/a", 2020, 1)]);
    let step = run.proceed(false);
    assert_eq!(step.events[0].message, "搜索调用次数已达上限 (0)，结束搜索阶段…");
    run.on_reply(reply(Some("thinking about what to do next"), Some(vec![call("c1", "dance", "{}")]), 1));
    run.proceed(false);
    let step = run.proceed(false);
    assert_eq!(step.events[0].phase, "force_finish");
    assert!(matches!(step.action, Action::CallLlm));
    assert_eq!(run.messages.last().unwrap().content.as_deref(), Some("Call finish_search NOW."));
    let step = run.on_forced_reply(reply(None, None, 7));
    assert_eq!(run.llm_calls, 2);
    assert_eq!(run.total_tokens, 8);
    assert!(matches!(step.action, Action::ScoreBatches(_)));
}

#[test]
fn failed_batch_scoring_ends_the_search() {
    let mut run = start("q", &[paper("W1", "A", "10.1/a", 2020, 1)]);
    run.proceed(false);
    run.on_reply(reply(None, Some(vec![call("c1", "finish_search", r#"{"message":""}"#)]), 1));
    run.proceed(false);
    let step = run.proceed(false);
    assert!(matches!(step.action, Action::ScoreBatches(_)));
    let step = run.on_scores(vec![Err("connection reset".to_string())]);
    match step.action {
        Action::Finish(Err(e)) => assert_eq!(e, "Batch scoring failed: connection reset"),
        other => panic!("unexpected action {:?}", other),
    }
}

#[test]
fn emptied_pool_asks_for_a_new_search() {
    let mut run = start("q", &[paper("W1", "A", "10.1/a", 2020, 1)]);
    run.proceed(false);
    run.on_reply(reply(None, Some(vec![call("c1", "finish_search", r#"{"message":"drop","drop_indices":[0]}"#)]), 1));
    run.proceed(false);
    let step = run.proceed(false);
    assert_eq!(step.events[0].message, "丢弃了 1 篇不相关论文，保留 0 篇");
    assert_eq!(step.events[1].message, "论文池已空，要求 Agent 重新搜索…");
    assert!(matches!(run.stage, Stage::RoundStart));
    assert!(run.paper_list.is_empty());
}

#[test]
fn scoring_an_empty_pool_ends_without_papers() {
    let mut run = start("q", &[]);
    run.proceed(false);
    run.on_reply(reply(None, Some(vec![call("c1", "finish_search", "{}")]), 1));
    run.proceed(false);
    let step = run.proceed(false);
    assert_eq!(step.events.last().unwrap().message, "预算耗尽且未找到论文。请尝试放宽约束。");
    match step.action {
        Action::Finish(Ok(res)) => {
            assert_eq!(res.summary, "多次搜索未找到匹配的论文。建议放宽约束或换个研究方向。");
            assert_eq!(res.total_candidates, 0);
        }
        other => panic!("unexpected action {:?}", other),
    }
}

#[test]
fn summary_failure_ends_with_its_error() {
    let mut run = start("q", &[paper("W1", "A", "10.1/a", 2020, 1)]);
    run.proceed(false);
    run.on_reply(reply(None, Some(vec![call("c1", "finish_search", "{}")]), 1));
    run.proceed(false);
    run.proceed(false);
    run.on_scores(vec![Ok(reply(Some(r#"{"scores":[]}"#), None, 1))]);
    let step = run.on_summary(Err("Missing content in LLM response".to_string()));
    match step.action {
        Action::Finish(Err(e)) => assert_eq!(e, "Missing content in LLM response"),
        other => panic!("unexpected action {:?}", other),
    }
}

#[test]
fn start_event_detail_is_compact_json_with_sorted_escaped_members() {
    let config = AppConfig::default_config();
    let (_, events) = Orchestrator::start("say \"hi\"\n\u{1}".to_string(), &config, None, &[]);
    assert_eq!(events[0].detail, r#"{"preloaded":0,"query":"say \"hi\"\n\u0001"}"#);
}
