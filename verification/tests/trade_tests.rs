use std::collections::HashMap;

use sleeper_bot::sleeper::{DraftPick, Player, PlayerMap, Transaction};
use sleeper_bot::state::ReviewState;
use sleeper_bot::trade_analyzer::{build_prompt, finish_review, parse_trade, TradeSummary};

fn player(id: &str, first: &str, last: &str, pos: &str, team: &str) -> Player {
    Player {
        player_id: Some(id.to_string()),
        first_name: Some(first.to_string()),
        last_name: Some(last.to_string()),
        position: Some(pos.to_string()),
        team: Some(team.to_string()),
        age: None,
        years_exp: None,
        college: None,
        injury_status: None,
        injury_body_part: None,
        injury_notes: None,
        injury_start_date: None,
        depth_chart_order: None,
        depth_chart_position: None,
        status: None,
        number: None,
        birth_date: None,
        news_updated: None,
    }
}

fn sample_players() -> PlayerMap {
    let mut m = PlayerMap::new();
    m.insert("4035".to_string(), player("4035", "Jaylen", "Waddle", "WR", "MIA"));
    m.insert("2257".to_string(), player("2257", "Derrick", "Henry", "RB", "TEN"));
    m
}

fn sample_names() -> HashMap<u32, String> {
    let mut m = HashMap::new();
    m.insert(1, "Nick (Touchdown Tyrants)".to_string());
    m.insert(2, "Mike (Dumpster Fire)".to_string());
    m
}

fn sample_records() -> HashMap<u32, String> {
    let mut m = HashMap::new();
    m.insert(1, "8-2".to_string());
    m.insert(2, "3-7".to_string());
    m
}

fn trade(roster_ids: Option<Vec<u32>>, adds: Option<Vec<(String, u32)>>, picks: Option<Vec<DraftPick>>) -> Transaction {
    Transaction {
        tx_type: Some("trade".to_string()),
        transaction_id: Some("123".to_string()),
        status: Some("complete".to_string()),
        roster_ids,
        adds,
        drops: None,
        draft_picks: picks,
        created: Some(1558039391576),
        status_updated: None,
    }
}

#[test]
fn test_parse_trade_with_players_and_picks() {
    // Waddle → roster 1, Henry → roster 2
    let adds = vec![("4035".to_string(), 1u32), ("2257".to_string(), 2u32)];
    let tx = trade(
        Some(vec![2, 1]),
        Some(adds),
        Some(vec![DraftPick {
            season: Some("2025".to_string()),
            round: Some(3),
            roster_id: Some(2),
            previous_owner_id: Some(2),
            owner_id: Some(1),
        }]),
    );

    let summary = parse_trade(&tx, &sample_names(), &sample_records(), &sample_players()).unwrap();

    // Team A is roster 2 (first in roster_ids)
    assert_eq!(summary.team_a_name, "Mike (Dumpster Fire)");
    assert_eq!(summary.team_a_record, "3-7");
    assert!(summary.team_a_receives.iter().any(|s| s.contains("Derrick Henry")));

    assert_eq!(summary.team_b_name, "Nick (Touchdown Tyrants)");
    assert!(summary.team_b_receives.iter().any(|s| s.contains("Jaylen Waddle")));
    assert!(summary.team_b_receives.iter().any(|s| s.contains("Round 3")));
}

#[test]
fn test_parse_trade_exact_lines_and_fallbacks() {
    let adds = vec![("4035".to_string(), 7u32), ("DET".to_string(), 2u32)];
    let tx = trade(
        Some(vec![2, 7, 1]),
        Some(adds),
        Some(vec![DraftPick {
            season: None,
            round: None,
            roster_id: Some(9),
            previous_owner_id: Some(2),
            owner_id: Some(2),
        }]),
    );
    let s = parse_trade(&tx, &sample_names(), &sample_records(), &sample_players()).unwrap();
    assert_eq!(s.team_a_receives, vec!["DET D/ST".to_string(), "???? Round 0 Pick (originally Team 9's)".to_string()]);
    assert_eq!(s.team_b_name, "Team 7");
    assert_eq!(s.team_b_record, "0-0");
    assert_eq!(s.team_b_receives, vec!["Jaylen Waddle (WR - MIA)".to_string()]);
    assert_eq!(s.other_teams.len(), 1);
    assert_eq!(s.other_teams[0].name, "Nick (Touchdown Tyrants)");
    assert!(s.other_teams[0].receives.is_empty());
}

#[test]
fn test_parse_three_team_trade() {
    let tx = trade(Some(vec![1, 2, 3]), Some(vec![("4035".to_string(), 3u32)]), None);
    let s = parse_trade(&tx, &HashMap::new(), &HashMap::new(), &sample_players()).unwrap();
    assert_eq!(s.team_a_name, "Team 1");
    assert!(s.team_a_receives.is_empty());
    assert_eq!(s.team_b_name, "Team 2");
    assert!(s.team_b_receives.is_empty());
    assert_eq!(s.other_teams.len(), 1);
    assert_eq!(s.other_teams[0].name, "Team 3");
    assert_eq!(s.other_teams[0].record, "0-0");
    assert_eq!(s.other_teams[0].receives, vec!["Jaylen Waddle (WR - MIA)".to_string()]);
    let prompt = build_prompt(&s);
    assert_eq!(
        prompt,
        "Analyze this fantasy football trade:\n\nTRADE:\nTeam 1 (Record: 0-0) receives:\n  - (nothing)\n\n\
         Team 2 (Record: 0-0) receives:\n  - (nothing)\n\nTeam 3 (Record: 0-0) receives:\n  - Jaylen Waddle (WR - MIA)\n\n\
         Who won this trade and why?"
    );
}

#[test]
fn test_parse_trade_needs_two_rosters() {
    assert!(parse_trade(&trade(Some(vec![1]), None, None), &sample_names(), &sample_records(), &sample_players()).is_none());
    assert!(parse_trade(&trade(None, None, None), &sample_names(), &sample_records(), &sample_players()).is_none());
}

#[test]
fn test_build_prompt_format() {
    let summary = TradeSummary {
        team_a_name: "Alice".to_string(),
        team_a_record: "5-5".to_string(),
        team_a_receives: vec!["Player A (WR - NYG)".to_string()],
        team_b_name: "Bob".to_string(),
        team_b_record: "7-3".to_string(),
        team_b_receives: vec!["Player B (RB - DAL)".to_string(), "2025 Round 1 Pick".to_string()],
        other_teams: vec![],
    };

    let prompt = build_prompt(&summary);
    assert!(prompt.contains("Alice (Record: 5-5) receives:"));
    assert!(prompt.contains("Bob (Record: 7-3) receives:"));
    assert!(prompt.contains("Player A (WR - NYG)"));
    assert!(prompt.contains("2025 Round 1 Pick"));
    assert!(prompt.contains("Who won this trade and why?"));
}

#[test]
fn test_finish_review() {
    let mut state = ReviewState::with_reviewed(vec![]);
    assert_eq!(finish_review(&mut state, "t1", Err("down".to_string())), None);
    assert!(!state.is_reviewed("t1"));
    assert_eq!(finish_review(&mut state, "t1", Ok("A wins".to_string())), Some("A wins".to_string()));
    assert!(state.is_reviewed("t1"));
}
