use std::collections::HashMap;

use sleeper_bot::sleeper::{
    build_roster_name_map, build_roster_record_map, format_player_name, player_cache_is_stale,
    League, LeagueSettings,
    Player, PlayerMap, Roster, RosterSettings, Transaction, User, UserMetadata,
};

fn player(id: &str, first: &str, last: &str, pos: &str, team: &str) -> Player {
    Player {
        player_id: Some(id.to_string()),
        first_name: Some(first.to_string()),
        last_name: Some(last.to_string()),
        position: Some(pos.to_string()),
        team: Some(team.to_string()),
        age: None,
        years_exp: None,
        college: None,
        injury_status: None,
        injury_body_part: None,
        injury_notes: None,
        injury_start_date: None,
        depth_chart_order: None,
        depth_chart_position: None,
        status: None,
        number: None,
        birth_date: None,
        news_updated: None,
    }
}

fn tx(tx_type: &str, id: &str, status: &str, roster_ids: Vec<u32>) -> Transaction {
    Transaction {
        tx_type: Some(tx_type.to_string()),
        transaction_id: Some(id.to_string()),
        status: Some(status.to_string()),
        roster_ids: Some(roster_ids),
        adds: None,
        drops: None,
        draft_picks: None,
        created: None,
        status_updated: None,
    }
}

fn build_league(
    roster_positions: Option<Vec<&str>>,
    league_type: Option<u32>,
    total_rosters: Option<u32>,
) -> League {
    let settings = LeagueSettings {
        num_teams: total_rosters,
        playoff_teams: None,
        playoff_week_start: None,
        playoff_type: None,
        trade_deadline: None,
        trade_review_days: None,
        pick_trading: None,
        waiver_type: None,
        waiver_budget: None,
        taxi_slots: None,
        taxi_years: None,
        taxi_allow_vets: None,
        reserve_slots: None,
        bench_lock: None,
        best_ball: None,
        disable_trades: None,
        offseason_adds: None,
        draft_rounds: None,
        league_type,
        position_limit_qb: None,
    };
    League {
        league_id: Some("123".to_string()),
        name: Some("Test League".to_string()),
        season: Some("2026".to_string()),
        status: Some("in_season".to_string()),
        previous_league_id: None,
        total_rosters,
        roster_positions: roster_positions.map(|v| v.into_iter().map(|s| s.to_string()).collect()),
        settings: Some(settings),
    }
}

#[test]
fn test_format_player_name_regular() {
    let mut players = PlayerMap::new();
    players.insert("4035".to_string(), player("4035", "Jaylen", "Waddle", "WR", "MIA"));
    assert_eq!(format_player_name("4035", &players), "Jaylen Waddle (WR - MIA)");
}

#[test]
fn test_format_player_name_dst() {
    let players = PlayerMap::new();
    assert_eq!(format_player_name("DET", &players), "DET D/ST");
    assert_eq!(format_player_name("PHI", &players), "PHI D/ST");
}

#[test]
fn test_format_player_name_unknown() {
    let players = PlayerMap::new();
    assert_eq!(format_player_name("99999", &players), "Unknown Player (99999)");
}

#[test]
fn test_roster_settings_record() {
    let settings = RosterSettings {
        wins: Some(8),
        losses: Some(2),
        ties: None,
        fpts: Some(1234),
        fpts_decimal: Some(56),
        fpts_against: Some(1100),
        fpts_against_decimal: Some(0),
    };
    assert_eq!(settings.record(), "8-2");
    assert!((settings.points_for_hundredths() as f64 / 100.0 - 1234.56).abs() < 0.001);
    assert_eq!(settings.points_for_hundredths(), 123456);
    assert_eq!(settings.points_against_hundredths(), 110000);
}

#[test]
fn test_record_with_ties_and_missing_counts() {
    let settings = RosterSettings {
        wins: None,
        losses: Some(3),
        ties: Some(1),
        fpts: None,
        fpts_decimal: None,
        fpts_against: None,
        fpts_against_decimal: None,
    };
    assert_eq!(settings.record(), "0-3-1");
}

#[test]
fn test_non_trade_filtered() {
    let t = tx("waiver", "456", "complete", vec![1]);
    assert!(!t.is_completed_trade());
}

#[test]
fn test_pending_trade_filtered() {
    let t = tx("trade", "789", "pending", vec![1, 2]);
    assert!(!t.is_completed_trade());
}

#[test]
fn test_completed_trade_and_id() {
    let t = tx("trade", "434852362033561600", "complete", vec![2, 1]);
    assert!(t.is_completed_trade());
    assert_eq!(t.id(), "434852362033561600");
    let mut unnamed = tx("trade", "x", "complete", vec![]);
    unnamed.transaction_id = None;
    assert_eq!(unnamed.id(), "unknown");
}

#[test]
fn test_is_superflex() {
    let sf = build_league(
        Some(vec!["QB", "RB", "RB", "WR", "WR", "TE", "FLEX", "SUPER_FLEX", "K", "DEF"]),
        None,
        None,
    );
    assert!(sf.is_superflex());
    let std = build_league(Some(vec!["QB", "RB", "RB", "WR", "WR", "TE", "FLEX", "K", "DEF"]), None, None);
    assert!(!std.is_superflex());
}

#[test]
fn test_format_roster_positions_orders_starters_first() {
    let league = build_league(
        Some(vec![
            "QB", "RB", "RB", "WR", "WR", "WR", "TE", "FLEX", "SUPER_FLEX", "K", "DEF", "BN", "BN", "BN",
            "BN", "IR", "IR",
        ]),
        None,
        None,
    );
    assert_eq!(
        league.format_roster_positions(),
        "1 QB, 2 RB, 3 WR, 1 TE, 1 SUPER_FLEX, 1 FLEX, 1 K, 1 DEF, 4 BN, 2 IR"
    );
}

#[test]
fn test_format_roster_positions_handles_unknown_slots() {
    let league = build_league(Some(vec!["QB", "WEIRD_SLOT", "BN"]), None, None);
    let formatted = league.format_roster_positions();
    assert!(formatted.starts_with("1 QB"));
    assert!(formatted.contains("WEIRD_SLOT"));
    assert!(formatted.contains("BN"));
}

#[test]
fn test_format_summary_dynasty_superflex_full_ppr() {
    let league = build_league(
        Some(vec![
            "QB", "RB", "RB", "WR", "WR", "WR", "TE", "FLEX", "SUPER_FLEX", "K", "DEF", "BN", "BN", "BN",
        ]),
        Some(2),
        Some(10),
    );
    // The scoring highlights of rec 1.0, pass_td 6.0, bonus_rec_te 0.5.
    let summary = league.format_summary(Some("full PPR, 6pt pass TDs, +0.5 TE premium"), None);
    assert!(summary.starts_with("10-team superflex dynasty league."));
    assert!(summary.contains("Lineup: 1 QB, 2 RB, 3 WR, 1 TE, 1 SUPER_FLEX, 1 FLEX, 1 K, 1 DEF, 3 BN."));
    assert!(summary.contains("Scoring: full PPR, 6pt pass TDs, +0.5 TE premium."));
    assert!(!summary.contains("Additional notes"));
}

#[test]
fn test_format_summary_appends_extra_rules() {
    let league = build_league(Some(vec!["QB", "RB", "WR", "FLEX", "K", "DEF", "BN"]), Some(0), Some(12));
    // The scoring highlights of rec 0.5.
    let summary = league.format_summary(Some("half PPR"), Some("$100 buy-in, payouts top 4."));
    assert!(summary.contains("12-team redraft league."));
    assert!(!summary.contains("superflex"));
    assert!(summary.contains("half PPR"));
    assert!(summary.contains("Additional notes: $100 buy-in, payouts top 4."));
}

#[test]
fn test_format_summary_without_data() {
    let mut league = build_league(None, None, None);
    league.settings = None;
    assert_eq!(league.format_summary(None, Some("")), "fantasy league.");
    // Notes are appended as given.
    assert_eq!(league.format_summary(None, Some("  x ")), "fantasy league. Additional notes:   x ");
}

#[test]
fn test_roster_maps() {
    let users = vec![
        User {
            user_id: "u1".to_string(),
            display_name: Some("Nick".to_string()),
            metadata: Some(UserMetadata { team_name: Some("Touchdown Tyrants".to_string()) }),
        },
        User { user_id: "u2".to_string(), display_name: None, metadata: None },
    ];
    let roster = |id: u32, owner: Option<&str>, wins: u32| Roster {
        roster_id: id,
        owner_id: owner.map(|s| s.to_string()),
        players: None,
        starters: None,
        settings: Some(RosterSettings {
            wins: Some(wins),
            losses: Some(1),
            ties: None,
            fpts: None,
            fpts_decimal: None,
            fpts_against: None,
            fpts_against_decimal: None,
        }),
    };
    let rosters = vec![roster(1, Some("u1"), 5), roster(2, Some("u2"), 2), roster(3, None, 0), roster(4, Some("zz"), 0)];
    let names = build_roster_name_map(&users, &rosters);
    let mut expected = HashMap::new();
    expected.insert(1u32, "Nick (Touchdown Tyrants)".to_string());
    expected.insert(2u32, "Unknown".to_string());
    assert_eq!(names, expected);
    let records = build_roster_record_map(&rosters);
    assert_eq!(records.get(&1).map(|s| s.as_str()), Some("5-1"));
    assert_eq!(records.get(&3).map(|s| s.as_str()), Some("0-1"));
    assert_eq!(records.len(), 4);
}

#[test]
fn test_player_map_insert_replaces() {
    let mut m = PlayerMap::new();
    m.insert("1".to_string(), player("1", "A", "B", "QB", "KC"));
    m.insert("1".to_string(), player("1", "C", "D", "RB", "NYJ"));
    assert_eq!(m.len(), 1);
    assert_eq!(m.get("1").unwrap().full_name(), "C D");
    assert!(m.get("2").is_none());
}

#[test]
fn test_player_full_name_and_context() {
    let mut p = player("1", "  Patrick", "Mahomes ", "QB", "KC");
    assert_eq!(p.full_name(), "Patrick Mahomes");
    assert_eq!(p.context_summary(), "");
    p.age = Some(29);
    p.years_exp = Some(8);
    p.status = Some("Injured Reserve".to_string());
    p.injury_status = Some("Out".to_string());
    p.injury_body_part = Some("Ankle".to_string());
    p.injury_notes = Some("High sprain".to_string());
    p.depth_chart_order = Some(1);
    p.depth_chart_position = Some("QB".to_string());
    assert_eq!(
        p.context_summary(),
        "Age: 29, Experience: 8 yr(s), Status: Injured Reserve, Injury: Out (Ankle) - High sprain, Depth chart: #1 QB"
    );
}

#[test]
fn test_player_cache_is_stale_after_seven_days() {
    assert!(!player_cache_is_stale(0));
    assert!(!player_cache_is_stale(7 * 86400));
    assert!(player_cache_is_stale(7 * 86400 + 1));
}
