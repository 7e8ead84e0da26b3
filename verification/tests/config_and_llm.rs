use paper_search::config::{default_profile, AppConfig, LlmConfig, LlmProfile};
use paper_search::json::parse_json;
use paper_search::llm::{
    backend_stale, completions_url, extract_tokens, extract_tool_calls, parse_text_reply, parse_tool_reply,
    retry_delay_ms, status_outcome, AttemptOutcome, ChatAttempts, ChatResponse, ChatStep, StatusOutcome,
};

#[test]
fn default_config_values() {
    let c = AppConfig::default_config();
    assert_eq!(c.llm.profiles.len(), 1);
    let p = &c.llm.profiles[0];
    assert_eq!(
        (p.id.as_str(), p.name.as_str(), p.provider.as_str(), p.model.as_str(), p.api_key.as_str(), p.base_url.as_str()),
        ("default", "Default", "openai", "deepseek-chat", "", "https://api.deepseek.com")
    );
    assert_eq!(c.llm.active_profile_id, "default");
    assert_eq!(c.search.backends[0].name, "openalex");
    assert!(c.search.backends[0].enabled);
    assert_eq!(c.search.max_results_per_query, 15);
    assert_eq!(c.search.max_rounds, 3);
    assert_eq!(c.budget.max_llm_calls, 10);
    assert_eq!(c.budget.max_search_calls, 30);
}

#[test]
fn active_profile_by_id() {
    let cfg = LlmConfig {
        profiles: vec![
            LlmProfile::new("a", "A", "openai", "m1", "k1", "u1"),
            LlmProfile::new("b", "B", "openai", "m2", "k2", "u2"),
        ],
        active_profile_id: "b".to_string(),
    };
    assert_eq!(cfg.active_profile().unwrap().model, "m2");
    let none = LlmConfig { profiles: vec![], active_profile_id: "b".to_string() };
    assert!(none.active_profile().is_none());
    assert_eq!(none.profile_or_default().id, "default");
    assert_eq!(default_profile().base_url, "https://api.deepseek.com");
}

#[test]
fn legacy_configuration_is_upgraded() {
    let doc = AppConfig::read_document("llm:\n  provider: openai\n  model: gpt-4o\n  api_key: sk\nbudget:\n  max_llm_calls: 3\n").unwrap();
    let llm = doc.get("llm");
    assert_eq!(llm.get("active_profile_id").as_str(), Some("default"));
    let p = llm.get("profiles").index(0);
    assert_eq!(p.get("id").as_str(), Some("default"));
    assert_eq!(p.get("model").as_str(), Some("gpt-4o"));
    assert_eq!(p.get("api_key").as_str(), Some("sk"));
    assert_eq!(p.get("base_url").as_str(), Some("https://api.deepseek.com"));
    assert_eq!(doc.get("budget").get("max_llm_calls").as_u64(), Some(3));
    let again = AppConfig::upgrade_legacy(doc);
    assert_eq!(again.get("llm").get("profiles").index(0).get("model").as_str(), Some("gpt-4o"));
}

#[test]
fn current_configuration_is_kept() {
    let doc = AppConfig::read_document("llm:\n  profiles: []\n  active_profile_id: x\n").unwrap();
    assert_eq!(doc.get("llm").get("active_profile_id").as_str(), Some("x"));
    assert!(AppConfig::read_document("a: [unclosed").is_none());
}

#[test]
fn tokens_of_a_reply() {
    let j = parse_json(r#"{"usage":{"total_tokens":123}}"#).unwrap();
    assert_eq!(extract_tokens(&j), 123);
    let j = parse_json(r#"{"usage":{"total_tokens":-5}}"#).unwrap();
    assert_eq!(extract_tokens(&j), 0);
    let j = parse_json(r#"{"usage":{"prompt_tokens":10,"completion_tokens":-3}}"#).unwrap();
    assert_eq!(extract_tokens(&j), 10);
    let j = parse_json(r#"{"choices":[{"message":{"content":"abcdefg"}}]}"#).unwrap();
    assert_eq!(extract_tokens(&j), 3);
    assert_eq!(extract_tokens(&parse_json("{}").unwrap()), 0);
}

#[test]
fn tool_calls_of_a_reply() {
    let choice = parse_json(
        r#"{"message":{"tool_calls":[{"id":"c1","function":{"name":"search_papers"}},{"id":"c2","type":"function","function":{"name":"finish_search","arguments":"{}"}}]}}"#,
    )
    .unwrap();
    let calls = extract_tool_calls(&choice).unwrap();
    assert_eq!(calls.len(), 2);
    assert_eq!(calls[0].call_type, "function");
    assert_eq!(calls[0].function.arguments, "{}");
    assert_eq!(calls[1].function.name, "finish_search");
    let missing_name = parse_json(r#"{"message":{"tool_calls":[{"id":"c1","function":{}}]}}"#).unwrap();
    assert!(extract_tool_calls(&missing_name).is_none());
    let empty = parse_json(r#"{"message":{"tool_calls":[]}}"#).unwrap();
    assert!(extract_tool_calls(&empty).is_none());
}

#[test]
fn replies_of_the_chat_api() {
    let j = parse_json(r#"{"choices":[{"message":{"content":"hi"}}],"usage":{"total_tokens":4}}"#).unwrap();
    let r = parse_tool_reply(&j);
    assert_eq!(r.content.as_deref(), Some("hi"));
    assert!(r.tool_calls.is_none());
    assert_eq!(r.tokens, 4);
    let t = parse_text_reply(&j).unwrap();
    assert_eq!(t.content.as_deref(), Some("hi"));
    let none = parse_json(r#"{"choices":[]}"#).unwrap();
    assert_eq!(parse_text_reply(&none).unwrap_err(), "Missing content in LLM response");
}

#[test]
fn completions_url_trims_slashes() {
    assert_eq!(completions_url("https://api.deepseek.com//"), "https://api.deepseek.com/v1/chat/completions");
    assert_eq!(completions_url("http://x"), "http://x/v1/chat/completions");
}

#[test]
fn status_and_delays() {
    assert_eq!(status_outcome(200), StatusOutcome::Success);
    assert_eq!(status_outcome(404), StatusOutcome::Fail);
    assert_eq!(status_outcome(429), StatusOutcome::Retry);
    assert_eq!(status_outcome(503), StatusOutcome::Retry);
    assert_eq!(retry_delay_ms(0), 0);
    assert_eq!(retry_delay_ms(1), 1000);
    assert_eq!(retry_delay_ms(2), 2000);
}

#[test]
fn chat_attempts_retry_twice_then_fail() {
    let mut a = ChatAttempts::new();
    match a.next(AttemptOutcome::SendFailed("dns".to_string())) {
        ChatStep::Retry { delay_ms } => assert_eq!(delay_ms, 1000),
        other => panic!("unexpected {:?}", other),
    }
    match a.next(AttemptOutcome::HttpError { code: 503, status: "503 Service Unavailable".to_string(), body: "busy".to_string() }) {
        ChatStep::Retry { delay_ms } => assert_eq!(delay_ms, 2000),
        other => panic!("unexpected {:?}", other),
    }
    match a.next(AttemptOutcome::BadReply("eof".to_string())) {
        ChatStep::Done(Err(e)) => assert_eq!(e, "Failed to parse JSON response: eof"),
        other => panic!("unexpected {:?}", other),
    }
}

#[test]
fn chat_attempts_stop_on_client_errors_and_replies() {
    let mut a = ChatAttempts::new();
    match a.next(AttemptOutcome::HttpError { code: 401, status: "401 Unauthorized".to_string(), body: "bad key".to_string() }) {
        ChatStep::Done(Err(e)) => assert_eq!(e, "LLM API error 401 Unauthorized: bad key"),
        other => panic!("unexpected {:?}", other),
    }
    let mut b = ChatAttempts::new();
    let reply = ChatResponse { content: Some("x".to_string()), tool_calls: None, tokens: 1 };
    match b.next(AttemptOutcome::Reply(reply)) {
        ChatStep::Done(Ok(r)) => assert_eq!(r.content.as_deref(), Some("x")),
        other => panic!("unexpected {:?}", other),
    }
}

#[test]
fn backend_is_remade_for_a_new_key() {
    let p = LlmProfile::new("a", "A", "openai", "m", "k1", "u");
    assert!(backend_stale(None, &p));
    assert!(backend_stale(Some("k0"), &p));
    assert!(!backend_stale(Some("k1"), &p));
}
