use sleeper_bot::agent::{
    agent_decision, exhausted_message, execution_reply, extract_parts_text, extract_text,
    gemini_api_url, gemini_decision, gemini_trade_reply, parse_failure_reply, search_query,
    AgentDecision, GeminiPart, ReplyBlock, RetryLoop,
};
use sleeper_bot::config::default_bot_username;
use sleeper_bot::json::{json_doc_from_slice, JsonDoc};
use sleeper_bot::llm::{chat_system_prompt, chat_system_prompt_for, trade_system_prompt, trade_system_prompt_for};
use sleeper_bot::tools::ToolCallError;

fn text(t: &str) -> ReplyBlock {
    ReplyBlock::Text { text: t.to_string() }
}

fn tool_use(id: &str, name: &str) -> ReplyBlock {
    ReplyBlock::ToolUse { id: id.to_string(), name: name.to_string(), input: JsonDoc::Object(vec![]) }
}

#[test]
fn test_extract_text_multiple_blocks() {
    let blocks = vec![text("First part. "), tool_use("t1", "test"), text("Second part.")];
    assert_eq!(extract_text(&blocks), "First part. Second part.");
}

#[test]
fn test_agent_decision_by_stop_reason() {
    let blocks = vec![text("The standings show Nick is in first place.")];
    match agent_decision(Some("end_turn"), &blocks) {
        AgentDecision::Answer(t) => assert_eq!(t, "The standings show Nick is in first place."),
        other => panic!("unexpected {other:?}"),
    }
    let blocks = vec![text("Let me look that up."), tool_use("toolu_abc", "get_league_standings"), ReplyBlock::Other, tool_use("b", "x")];
    match agent_decision(Some("tool_use"), &blocks) {
        AgentDecision::UseTools(v) => assert_eq!(v, vec![1, 3]),
        other => panic!("unexpected {other:?}"),
    }
    match agent_decision(Some("max_tokens"), &vec![tool_use("a", "b")]) {
        AgentDecision::Fail(m) => assert_eq!(m, "Agent stopped due to max_tokens with no text output"),
        other => panic!("unexpected {other:?}"),
    }
    match agent_decision(Some("max_tokens"), &vec![text("partial")]) {
        AgentDecision::Answer(t) => assert_eq!(t, "partial"),
        other => panic!("unexpected {other:?}"),
    }
    match agent_decision(None, &vec![]) {
        AgentDecision::Fail(m) => assert_eq!(m, "Agent stopped with unexpected reason: unknown"),
        other => panic!("unexpected {other:?}"),
    }
    match agent_decision(Some("refusal"), &vec![text("no")]) {
        AgentDecision::Answer(t) => assert_eq!(t, "no"),
        other => panic!("unexpected {other:?}"),
    }
    assert_eq!(exhausted_message("Agent", 10), "Agent exceeded maximum iterations (10)");
}

#[test]
fn test_tool_replies() {
    let ok = execution_reply(Ok("1. Nick — 8-2".to_string()));
    assert_eq!(ok.content, "1. Nick — 8-2");
    assert!(!ok.is_error);
    let err = execution_reply(Err("No team found".to_string()));
    assert_eq!(err.content, "Error executing tool: No team found");
    assert!(err.is_error);
    let p = parse_failure_reply(&ToolCallError::UnknownTool { name: "nope".to_string() });
    assert_eq!(p.content, "Error parsing tool call: Unknown tool: nope");
    assert!(p.is_error);
}

#[test]
fn test_extract_text_from_parts() {
    let parts = vec![
        GeminiPart { text: Some("First. ".to_string()), function_call: None },
        GeminiPart { text: None, function_call: Some(("test".to_string(), JsonDoc::Object(vec![]))) },
        GeminiPart { text: Some("Second.".to_string()), function_call: None },
    ];
    assert_eq!(extract_parts_text(&parts), "First. Second.");
    match gemini_decision(&parts) {
        AgentDecision::UseTools(v) => assert_eq!(v, vec![1]),
        other => panic!("unexpected {other:?}"),
    }
    let only_text = vec![GeminiPart { text: Some("The standings show Nick is first.".to_string()), function_call: None }];
    match gemini_decision(&only_text) {
        AgentDecision::Answer(t) => assert_eq!(t, "The standings show Nick is first."),
        other => panic!("unexpected {other:?}"),
    }
}

#[test]
fn test_search_query_and_gemini_helpers() {
    let args = json_doc_from_slice(br#"{"query": "Derrick Henry news"}"#).unwrap();
    assert_eq!(search_query(&args), "Derrick Henry news");
    let args = json_doc_from_slice(br#"{"query": 5}"#).unwrap();
    assert_eq!(search_query(&args), "");
    assert_eq!(
        gemini_api_url("KEY"),
        "https://generativelanguage.googleapis.com/v1beta/models/gemini-2.5-flash:generateContent?key=KEY"
    );
    assert_eq!(gemini_trade_reply(&vec!["A".to_string(), "B".to_string()]), Ok("AB".to_string()));
    assert_eq!(gemini_trade_reply(&vec![]), Err("Gemini returned empty response".to_string()));
}

#[test]
fn test_retry_loop() {
    let mut r = RetryLoop::new();
    assert_eq!(r.next_delay(), Some(0));
    assert_eq!(r.record_status("Anthropic", 429, "slow down"), None);
    assert_eq!(r.next_delay(), Some(1));
    r.record_transport_error("connection reset".to_string());
    assert_eq!(r.next_delay(), Some(2));
    assert_eq!(r.record_status("Anthropic", 503, "busy"), None);
    assert_eq!(r.next_delay(), Some(4));
    assert_eq!(r.record_status("Anthropic", 500, "oops"), None);
    assert_eq!(r.next_delay(), None);
    assert_eq!(r.give_up_message("Anthropic"), "HTTP 500: oops");
    let mut r = RetryLoop::new();
    assert_eq!(
        r.record_status("Gemini", 400, "bad request"),
        Some("Gemini API error 400: bad request".to_string())
    );
    assert_eq!(RetryLoop::new().give_up_message("Gemini"), "Gemini API failed after retries");
}

#[test]
fn test_prompts() {
    let p = trade_system_prompt_for("March 01, 2026", "2026", "Jon Gruden", "10-team dynasty league.");
    assert!(p.starts_with("Today's date: March 01, 2026. The 2026 NFL Draft is coming up this spring."));
    assert!(p.contains("You are Jon Gruden and you are the league's official trade analyst bot"));
    assert!(p.contains("'Derrick Henry 2026 injury update'"));
    assert!(p.contains("- League format: 10-team dynasty league.\n\nKeep the response under 1500 characters."));
    let c = chat_system_prompt_for("March 01, 2026", "2026", "12-team redraft league.");
    assert!(c.starts_with("Today's date: March 01, 2026. Any 2026 draft picks are THIS YEAR's picks"));
    assert!(c.contains("League format: 12-team redraft league.\n\nRules:"));
    assert!(c.ends_with("no headers or markdown."));
    assert!(trade_system_prompt("X", "F").contains("You are X and"));
    assert!(chat_system_prompt("F").contains("League format: F\n"));
}

#[test]
fn test_default_bot_username() {
    assert_eq!(default_bot_username(), "tradebot123");
}

#[test]
fn test_agent_response_end_turn() {
    // stop_reason "end_turn" with one text block.
    let content = vec![text("The standings show Nick is in first place.")];
    assert_eq!(extract_text(&content), "The standings show Nick is in first place.");
    match agent_decision(Some("end_turn"), &content) {
        AgentDecision::Answer(t) => assert_eq!(t, "The standings show Nick is in first place."),
        other => panic!("unexpected {other:?}"),
    }
}

#[test]
fn test_agent_response_tool_use() {
    // stop_reason "tool_use" with a text block and one tool call.
    let content = vec![text("Let me look that up."), tool_use("toolu_abc", "get_league_standings")];
    assert_eq!(content.len(), 2);
    match agent_decision(Some("tool_use"), &content) {
        AgentDecision::UseTools(calls) => assert_eq!(calls.len(), 1),
        other => panic!("unexpected {other:?}"),
    }
}

#[test]
fn test_gemini_response_deserialization() {
    // The candidate's parts: one text part (finish reason "STOP").
    let parts = vec![GeminiPart { text: Some("The standings show Nick is first.".to_string()), function_call: None }];
    assert_eq!(extract_parts_text(&parts), "The standings show Nick is first.");
}

#[test]
fn test_gemini_response_with_function_call() {
    let parts = vec![
        GeminiPart { text: Some("Let me look that up.".to_string()), function_call: None },
        GeminiPart {
            text: None,
            function_call: Some(("get_league_standings".to_string(), json_doc_from_slice(b"{}").unwrap())),
        },
    ];
    match gemini_decision(&parts) {
        AgentDecision::UseTools(calls) => assert_eq!(calls.len(), 1),
        other => panic!("unexpected {other:?}"),
    }
}
