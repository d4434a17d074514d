use sleeper_bot::json::{json_doc_from_slice, JsonDoc, JsonItem};
use sleeper_bot::schema::{all_tool_definitions, call_limit, tool_definition, ParamKind};
use sleeper_bot::tools::{parse_tool_call, ToolCallError, ToolName};

fn doc(text: &str) -> JsonDoc {
    json_doc_from_slice(text.as_bytes()).expect("valid JSON")
}

#[test]
fn test_parse_no_arg_tools() {
    let input = doc("{}");
    assert!(matches!(
        parse_tool_call("get_league_standings", &input).unwrap(),
        ToolName::GetLeagueStandings
    ));
    assert!(matches!(
        parse_tool_call("get_league_history", &input).unwrap(),
        ToolName::GetLeagueHistory
    ));
}

#[test]
fn test_parse_get_team_roster() {
    let input = doc(r#"{"team_name": "Touchdown Tyrants"}"#);
    match parse_tool_call("get_team_roster", &input).unwrap() {
        ToolName::GetTeamRoster { team_name } => {
            assert_eq!(team_name, "Touchdown Tyrants");
        }
        _ => panic!("Expected GetTeamRoster"),
    }
}

#[test]
fn test_parse_get_team_roster_missing_field() {
    let input = doc("{}");
    assert!(parse_tool_call("get_team_roster", &input).is_err());
}

#[test]
fn test_parse_get_player_info() {
    let input = doc(r#"{"player_name": "Patrick Mahomes"}"#);
    match parse_tool_call("get_player_info", &input).unwrap() {
        ToolName::GetPlayerInfo { player_name } => {
            assert_eq!(player_name, "Patrick Mahomes");
        }
        _ => panic!("Expected GetPlayerInfo"),
    }
}

#[test]
fn test_parse_search_waiver_wire_with_all_params() {
    let input = doc(r#"{"position": "RB", "limit": 5}"#);
    match parse_tool_call("search_waiver_wire", &input).unwrap() {
        ToolName::SearchWaiverWire { position, limit } => {
            assert_eq!(position, Some("RB".to_string()));
            assert_eq!(limit, Some(5));
        }
        _ => panic!("Expected SearchWaiverWire"),
    }
}

#[test]
fn test_parse_search_waiver_wire_no_params() {
    let input = doc("{}");
    match parse_tool_call("search_waiver_wire", &input).unwrap() {
        ToolName::SearchWaiverWire { position, limit } => {
            assert!(position.is_none());
            assert!(limit.is_none());
        }
        _ => panic!("Expected SearchWaiverWire"),
    }
}

#[test]
fn test_parse_get_recent_transactions() {
    let input = doc(r#"{"tx_type": "trade", "limit": 3}"#);
    match parse_tool_call("get_recent_transactions", &input).unwrap() {
        ToolName::GetRecentTransactions { tx_type, limit } => {
            assert_eq!(tx_type, Some("trade".to_string()));
            assert_eq!(limit, Some(3));
        }
        _ => panic!("Expected GetRecentTransactions"),
    }
}

#[test]
fn test_parse_get_matchup() {
    let input = doc(r#"{"team_name": "Nick"}"#);
    match parse_tool_call("get_matchup", &input).unwrap() {
        ToolName::GetMatchup { team_name } => {
            assert_eq!(team_name, "Nick");
        }
        _ => panic!("Expected GetMatchup"),
    }
}

#[test]
fn test_parse_unknown_tool() {
    let input = doc("{}");
    assert!(parse_tool_call("nonexistent_tool", &input).is_err());
}

#[test]
fn test_parse_get_past_season_results() {
    let input = doc(r#"{"seasons_ago": 2}"#);
    match parse_tool_call("get_past_season_results", &input).unwrap() {
        ToolName::GetPastSeasonResults { seasons_ago } => {
            assert_eq!(seasons_ago, 2);
        }
        _ => panic!("Expected GetPastSeasonResults"),
    }
}

#[test]
fn test_parse_get_past_season_results_missing_field() {
    assert!(parse_tool_call("get_past_season_results", &doc("{}")).is_err());
}

#[test]
fn test_parse_missing_required_fields() {
    assert!(parse_tool_call("get_player_info", &doc("{}")).is_err());
    assert!(parse_tool_call("get_matchup", &doc("{}")).is_err());
}

#[test]
fn test_parse_error_messages() {
    let e = parse_tool_call("get_team_roster", &doc(r#"{"team_name": 7}"#)).err().unwrap();
    assert_eq!(e.message(), "get_team_roster requires 'team_name' (string)");
    let e = parse_tool_call("get_past_season_results", &doc(r#"{"seasons_ago": -1}"#)).err().unwrap();
    assert_eq!(e.message(), "get_past_season_results requires 'seasons_ago' (integer)");
    match parse_tool_call("nonexistent_tool", &doc("{}")).err().unwrap() {
        ToolCallError::UnknownTool { name } => assert_eq!(name, "nonexistent_tool"),
        _ => panic!("Expected UnknownTool"),
    }
    assert_eq!(
        ToolCallError::UnknownTool { name: "x".to_string() }.message(),
        "Unknown tool: x"
    );
}

#[test]
fn test_parse_limit_truncates_to_32_bits() {
    let input = doc(r#"{"limit": 4294967301}"#);
    match parse_tool_call("search_waiver_wire", &input).unwrap() {
        ToolName::SearchWaiverWire { limit, .. } => assert_eq!(limit, Some(5)),
        _ => panic!("Expected SearchWaiverWire"),
    }
}

#[test]
fn test_parse_search_league_messages_and_non_object_input() {
    let input = doc(r#"{"username": "Nick", "keyword": 3, "after_date": "2024-01-01"}"#);
    match parse_tool_call("search_league_messages", &input).unwrap() {
        ToolName::SearchLeagueMessages { username, keyword, after_date, before_date } => {
            assert_eq!(username.as_deref(), Some("Nick"));
            assert_eq!(keyword, None);
            assert_eq!(after_date.as_deref(), Some("2024-01-01"));
            assert_eq!(before_date, None);
        }
        _ => panic!("Expected SearchLeagueMessages"),
    }
    let arr = JsonDoc::Array(vec![JsonItem::Text("team_name".to_string())]);
    assert!(parse_tool_call("get_matchup", &arr).is_err());
}

#[test]
fn test_json_doc_from_slice_kinds() {
    match doc(r#"{"a": null, "b": true, "c": -3, "d": 1.5, "e": [1], "f": {}}"#) {
        JsonDoc::Object(m) => {
            assert_eq!(m.len(), 6);
        }
        _ => panic!("Expected object"),
    }
    assert!(json_doc_from_slice(b"{").is_none());
    let d = doc(r#"{"n": -3}"#);
    assert!(matches!(d.get("n"), Some(JsonItem::NegInt(-3))));
    assert!(matches!(d.get("m"), None));
    assert_eq!(d.get_u64("n"), None);
}

#[test]
fn test_all_tool_definitions_count() {
    let tools = all_tool_definitions();
    assert_eq!(tools.len(), 9);
    for tool in &tools {
        assert!(!tool.name.is_empty(), "Tool missing 'name'");
        assert!(!tool.description.is_empty(), "Tool missing 'description'");
    }
}

#[test]
fn test_tool_descriptions_match_the_parser() {
    assert!(tool_definition("no_such_tool").is_none());
    let roster = tool_definition("get_team_roster").unwrap();
    assert_eq!(roster.required, vec!["team_name".to_string()]);
    assert_eq!(roster.params.len(), 1);
    assert_eq!(roster.params[0].kind, ParamKind::Text);
    let waiver = tool_definition("search_waiver_wire").unwrap();
    assert!(waiver.required.is_empty());
    assert_eq!(waiver.params[1].default, Some(15));
    assert_eq!(waiver.params[0].choices, vec!["QB", "RB", "WR", "TE", "K", "DEF"]);
    let past = tool_definition("get_past_season_results").unwrap();
    assert_eq!(past.params[0].minimum, Some(1));
    for tool in all_tool_definitions() {
        let empty = doc("{}");
        assert_eq!(parse_tool_call(&tool.name, &empty).is_ok(), tool.required.is_empty(), "{}", tool.name);
    }
}

#[test]
fn test_call_limit_defaults() {
    let w = parse_tool_call("search_waiver_wire", &doc("{}")).unwrap();
    assert_eq!(call_limit(&w), Some(15));
    let w = parse_tool_call("search_waiver_wire", &doc(r#"{"limit": 3}"#)).unwrap();
    assert_eq!(call_limit(&w), Some(3));
    let t = parse_tool_call("get_recent_transactions", &doc("{}")).unwrap();
    assert_eq!(call_limit(&t), Some(10));
    assert_eq!(call_limit(&ToolName::GetLeagueStandings), None);
}
