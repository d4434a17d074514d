use std::collections::HashMap;

use sleeper_bot::history::{
    bracket_report, league_history_report, past_season_report, previous_league_id, round_label,
    season_walk_start, season_walk_step, short_history_message, LeagueHistory, SeasonWalk,
};
use sleeper_bot::sleeper::{
    BracketMatch, League, Player, PlayerMap, Roster, RosterSettings, SeasonChampion, Transaction, User,
    UserMetadata,
};
use sleeper_bot::tools::{
    find_matchup, find_opponent, find_player, find_roster_by_name, is_rostered, league_standings,
    no_available_message, no_matchup_message, no_player_message, no_team_message, player_info_report,
    recent_transactions_report, season_standings, team_roster_report, unassigned_matchup_message,
    waiver_position_ok, MatchupSlot,
};

fn player(first: &str, last: &str, pos: Option<&str>, team: Option<&str>) -> Player {
    Player {
        player_id: None,
        first_name: Some(first.to_string()),
        last_name: Some(last.to_string()),
        position: pos.map(|s| s.to_string()),
        team: team.map(|s| s.to_string()),
        age: None,
        years_exp: None,
        college: None,
        injury_status: None,
        injury_body_part: None,
        injury_notes: None,
        injury_start_date: None,
        depth_chart_order: None,
        depth_chart_position: None,
        status: None,
        number: None,
        birth_date: None,
        news_updated: None,
    }
}

fn user(id: &str, name: Option<&str>, team: Option<&str>) -> User {
    User {
        user_id: id.to_string(),
        display_name: name.map(|s| s.to_string()),
        metadata: Some(UserMetadata { team_name: team.map(|s| s.to_string()) }),
    }
}

fn settings(wins: u32, losses: u32, fpts: u64) -> RosterSettings {
    RosterSettings {
        wins: Some(wins),
        losses: Some(losses),
        ties: None,
        fpts: Some(fpts),
        fpts_decimal: Some(50),
        fpts_against: Some(100),
        fpts_against_decimal: Some(0),
    }
}

fn roster(id: u32, owner: Option<&str>, players: Vec<&str>, starters: Vec<&str>, s: Option<RosterSettings>) -> Roster {
    Roster {
        roster_id: id,
        owner_id: owner.map(|o| o.to_string()),
        players: Some(players.into_iter().map(|p| p.to_string()).collect()),
        starters: Some(starters.into_iter().map(|p| p.to_string()).collect()),
        settings: s,
    }
}

fn players() -> PlayerMap {
    let mut m = PlayerMap::new();
    m.insert("p1".to_string(), player("Patrick", "Mahomes", Some("QB"), Some("KC")));
    m.insert("p2".to_string(), player("Travis", "Kelce", Some("TE"), None));
    m.insert("p3".to_string(), player("Pat", "Freiermuth", None, Some("PIT")));
    m
}

fn names() -> HashMap<u32, String> {
    let mut m = HashMap::new();
    m.insert(1, "Nick (Touchdown Tyrants)".to_string());
    m.insert(2, "Mike".to_string());
    m
}

#[test]
fn test_team_roster_report() {
    let users = vec![user("u1", Some("Nick"), Some("Touchdown Tyrants")), user("u2", Some("Mike"), None)];
    let rosters = vec![
        roster(1, Some("u1"), vec!["p1", "p2", "p3", "zz"], vec!["p1", "0", "x9"], Some(settings(8, 2, 1))),
        roster(2, Some("u2"), vec![], vec![], None),
    ];
    let report = team_roster_report(&users, &rosters, &players(), "touchdown");
    assert_eq!(
        report,
        "Nick (Touchdown Tyrants) (8-2)\n\nStarters:\n  Patrick Mahomes (QB, KC)\n  Unknown (x9)\n\nBench:\n  Travis Kelce (TE, FA)\n  Pat Freiermuth (??, PIT)\n"
    );
    assert_eq!(team_roster_report(&users, &rosters, &players(), "MIKE"), "Mike (0-0)\n");
    assert_eq!(
        team_roster_report(&users, &rosters, &players(), "Nobody"),
        "No team found matching \"Nobody\"."
    );
}

fn tx(kind: &str, created: u64, ids: Vec<u32>, adds: Vec<(&str, u32)>, drops: Vec<(&str, u32)>) -> Transaction {
    Transaction {
        tx_type: Some(kind.to_string()),
        transaction_id: Some("t".to_string()),
        status: Some("complete".to_string()),
        roster_ids: Some(ids),
        adds: Some(adds.into_iter().map(|(a, b)| (a.to_string(), b)).collect()),
        drops: Some(drops.into_iter().map(|(a, b)| (a.to_string(), b)).collect()),
        draft_picks: None,
        created: Some(created),
        status_updated: None,
    }
}

#[test]
fn test_recent_transactions_report() {
    let now: u64 = 2_000_000_000_000;
    let day: u64 = 86_400_000;
    let txs = vec![
        tx("trade", now - day, vec![1, 2, 9], vec![("p1", 2), ("p9", 7)], vec![]),
        tx("waiver", now - 2 * day, vec![2], vec![("p2", 2), ("nope", 2)], vec![("p3", 2)]),
        tx("free_agent", now - 20 * day, vec![1], vec![("p1", 1)], vec![]),
        tx("commissioner", now - day, vec![1], vec![], vec![]),
        tx("free_agent", now, vec![5], vec![], vec![]),
    ];
    let r = recent_transactions_report(&txs, None, 10, now, &names(), &players());
    assert_eq!(
        r,
        "Recent transactions:\n  Trade: Nick (Touchdown Tyrants) and Mike completed a trade (Patrick Mahomes → Mike, p9 → ?)\n  Mike added Travis Kelce dropped Pat Freiermuth\n  Unknown\n"
    );
    // The limit counts every shown transaction, including those of other types.
    let r = recent_transactions_report(&txs, None, 1, now, &names(), &players());
    assert!(r.starts_with("Recent transactions:\n  Trade:"));
    assert!(!r.contains("Mike added"));
    let r = recent_transactions_report(&txs, Some("WAIVER"), 10, now, &names(), &players());
    assert_eq!(r, "Recent transactions:\n  Mike added Travis Kelce dropped Pat Freiermuth\n");
    assert_eq!(
        recent_transactions_report(&txs, Some("draft"), 10, now, &names(), &players()),
        "No recent transactions found of type \"draft\"."
    );
    assert_eq!(
        recent_transactions_report(&vec![], None, 10, now, &names(), &players()),
        "No recent transactions found."
    );
}

#[test]
fn test_player_info() {
    let ps = players();
    assert_eq!(find_player(&ps, "PATRICK MAHOMES"), Some(0));
    // "pat" is contained in two names; the shorter one wins.
    assert_eq!(find_player(&ps, "pat"), Some(2));
    assert_eq!(find_player(&ps, "kelce"), Some(1));
    assert_eq!(find_player(&ps, "Josh Allen"), None);
    assert_eq!(no_player_message("Josh Allen"), "No player found matching \"Josh Allen\".");
    let rosters = vec![roster(2, Some("u2"), vec!["p2"], vec![], None)];
    let seasons = vec![
        ("2024".to_string(), "210.5 pts".to_string()),
        ("2023".to_string(), "".to_string()),
    ];
    let (_, p) = ps.entry(1);
    let r = player_info_report("p2", p, &seasons, Some("150.0 pts"), &rosters, &names());
    assert_eq!(
        r,
        "Travis Kelce (TE, FA)\n2024 season: 210.5 pts\nProjected: 150.0 pts\nRostered by: Mike\n"
    );
    let (_, p) = ps.entry(0);
    let r = player_info_report("p1", p, &vec![], None, &rosters, &names());
    assert_eq!(r, "Patrick Mahomes (QB, KC)\nStatus: Free agent (unrostered)\n");
}

fn game(r: u32, m: u32, t1: Option<u32>, t2: Option<u32>, w: Option<u32>) -> BracketMatch {
    BracketMatch { r, m, t1, t2, w, l: None }
}

#[test]
fn test_bracket_report() {
    let bracket = vec![
        game(1, 2, Some(1), Some(2), Some(2)),
        game(1, 1, Some(3), Some(4), None),
        game(3, 1, Some(2), Some(9), Some(2)),
        game(2, 1, Some(2), None, Some(2)),
    ];
    let r = bracket_report(&bracket, &names());
    assert_eq!(
        r,
        "\nPlayoff Bracket:\n  Round 1:\n    TBD vs TBD\n    Nick (Touchdown Tyrants) vs Mike → Winner: Mike\n  Semifinals:\n    Mike vs TBD → Winner: Mike\n  Championship:\n    Mike vs TBD → Winner: Mike\n\nChampion: Mike\n"
    );
    assert_eq!(bracket_report(&[], &names()), "");
    assert_eq!(round_label(2, 2), "Championship");
    assert_eq!(round_label(1, 2), "Round 1");
    assert_eq!(round_label(2, 3), "Semifinals");
}

fn league(status: &str, season: Option<&str>, prev: Option<&str>) -> League {
    League {
        league_id: None,
        name: Some("Dynasty Bros".to_string()),
        season: season.map(|s| s.to_string()),
        status: Some(status.to_string()),
        previous_league_id: prev.map(|s| s.to_string()),
        total_rosters: None,
        roster_positions: None,
        settings: None,
    }
}

#[test]
fn test_season_walk() {
    assert!(matches!(season_walk_start(0, "L3"),
        SeasonWalk::Answer(t) if t == "Use get_league_standings for the current season."));
    assert!(matches!(season_walk_start(2, "L3"), SeasonWalk::Fetch(id) if id == "L3"));
    assert!(matches!(season_walk_step(2, 0, &league("complete", None, Some("L2"))), SeasonWalk::Fetch(id) if id == "L2"));
    assert!(matches!(season_walk_step(2, 1, &league("complete", None, Some("L1"))), SeasonWalk::Arrived(id) if id == "L1"));
    assert!(matches!(season_walk_step(3, 1, &league("complete", None, Some("0"))),
        SeasonWalk::Answer(t) if t == short_history_message(3, 1)));
}

#[test]
fn test_previous_league_id_and_messages() {
    assert_eq!(previous_league_id(&league("complete", None, Some("42"))), Some("42".to_string()));
    assert_eq!(previous_league_id(&league("complete", None, Some("0"))), None);
    assert_eq!(previous_league_id(&league("complete", None, Some(""))), None);
    assert_eq!(previous_league_id(&league("complete", None, None)), None);
    assert_eq!(
        short_history_message(3, 1),
        "Could not go back 3 season(s) — league history only goes back 1 season(s)."
    );
}

#[test]
fn test_past_season_report() {
    let l = league("complete", Some("2024"), None);
    let standings = vec!["1. Mike — 9-1, 1500.2 PF, 1200.0 PA".to_string()];
    let r = past_season_report(&l, &standings, None, &names());
    assert_eq!(
        r,
        "Dynasty Bros — 2024 Season Results\n\nFinal Standings:\n1. Mike — 9-1, 1500.2 PF, 1200.0 PA\n"
    );
    let bracket = vec![game(1, 1, Some(1), Some(2), Some(1))];
    let r = past_season_report(&l, &standings, Some(&bracket), &names());
    assert!(r.ends_with("  Championship:\n    Nick (Touchdown Tyrants) vs Mike → Winner: Nick (Touchdown Tyrants)\n\nChampion: Nick (Touchdown Tyrants)\n"));
}

#[test]
fn test_league_history_walk() {
    let mut h = LeagueHistory::new();
    assert!(h.enter_league("L2"));
    let users = vec![user("u1", Some("Nick"), None), user("u2", Some("Mike"), None)];
    let rosters = vec![
        roster(1, Some("u1"), vec![], vec![], Some(settings(10, 4, 1000))),
        roster(2, Some("u2"), vec![], vec![], Some(settings(4, 10, 800))),
        roster(3, None, vec![], vec![], Some(settings(1, 1, 1))),
    ];
    let bracket = vec![game(2, 1, Some(1), Some(2), Some(1)), game(1, 1, Some(1), Some(2), Some(2))];
    h.record_season("L2", &league("complete", Some("2024"), Some("L1")), &users, &rosters, Some(&bracket));
    assert!(h.enter_league("L1"));
    let rosters_old = vec![roster(5, Some("u2"), vec![], vec![], Some(settings(12, 2, 1200)))];
    let users_old = vec![user("u2", Some("Michael"), None)];
    let bracket_old = vec![game(1, 1, Some(5), Some(6), Some(5))];
    h.record_season("L1", &league("complete", None, None), &users_old, &rosters_old, Some(&bracket_old));
    assert!(!h.enter_league("L2"));

    let champs = h.champions_by_season();
    let seasons: Vec<(&str, &str)> = champs.iter().map(|c| (c.season.as_str(), c.display_name.as_str())).collect();
    assert_eq!(seasons, vec![("L1", "Michael"), ("2024", "Nick")]);

    let totals = h.totals_by_wins();
    assert_eq!(totals.len(), 2);
    assert_eq!(totals[0].user_id, "u2");
    // The most recent season's name is kept.
    assert_eq!(totals[0].display_name, "Mike");
    assert_eq!((totals[0].seasons, totals[0].wins, totals[0].losses), (2, 16, 12));
    assert_eq!(totals[0].points_for, 80050 + 120050);
    assert_eq!(totals[0].championships, 1);
    assert_eq!(totals[1].user_id, "u1");
    assert_eq!(totals[1].wins, 10);
    assert_eq!(totals[1].championships, 1);
}

#[test]
fn test_incomplete_season_has_no_champion() {
    let mut h = LeagueHistory::new();
    let users = vec![user("u1", Some("Nick"), None)];
    let rosters = vec![roster(1, Some("u1"), vec![], vec![], Some(settings(3, 0, 10)))];
    let bracket = vec![game(1, 1, Some(1), Some(2), Some(1))];
    h.record_season("L", &league("in_season", Some("2025"), None), &users, &rosters, Some(&bracket));
    assert!(h.champions_by_season().is_empty());
    // A final without a winner names no champion either.
    let mut h = LeagueHistory::new();
    let open_final = vec![game(1, 1, Some(1), Some(2), None)];
    h.record_season("L", &league("complete", Some("2025"), None), &users, &rosters, Some(&open_final));
    assert!(h.champions_by_season().is_empty());
}

#[test]
fn test_league_history_report() {
    let champs = vec![SeasonChampion { season: "2024".to_string(), display_name: "Nick".to_string() }];
    let lines = vec!["  Nick — 10-4 (71%), 1000.5 PF, 100.0 PA, 1 ring(s)".to_string()];
    assert_eq!(
        league_history_report(&champs, &lines),
        "League Champions:\n  2024 — Nick\n\nAll-Time Stats:\n  Nick — 10-4 (71%), 1000.5 PF, 100.0 PA, 1 ring(s)\n"
    );
    assert_eq!(league_history_report(&vec![], &lines), format!("All-Time Stats:\n{}\n", lines[0]));
    assert_eq!(league_history_report(&champs, &vec![]), "League Champions:\n  2024 — Nick\n");
    assert_eq!(league_history_report(&vec![], &vec![]), "No league history available.");
}

#[test]
fn test_recent_transactions_report_now_uses_the_clock() {
    let txs = vec![tx("waiver", 1, vec![2], vec![("p2", 2)], vec![])];
    let (r, now) = sleeper_bot::tools::recent_transactions_report_now(&txs, None, 10, &names(), &players());
    assert!(now > 1_600_000_000_000);
    assert_eq!(r, recent_transactions_report(&txs, None, 10, now, &names(), &players()));
    assert_eq!(r, "No recent transactions found.");
}

#[test]
fn test_league_standings_order_and_records() {
    let users = vec![user("u1", Some("Nick"), Some("TT")), user("u2", Some("Mike"), None)];
    let rosters = vec![
        roster(1, Some("u1"), vec![], vec![], Some(settings(5, 5, 900))),
        roster(2, Some("u2"), vec![], vec![], Some(settings(7, 3, 800))),
        roster(3, Some("ghost"), vec![], vec![], Some(settings(7, 3, 950))),
        roster(4, None, vec![], vec![], Some(settings(9, 1, 1000))),
    ];
    let rows = league_standings(&users, &rosters);
    let shown: Vec<(&str, &str, usize)> = rows.iter().map(|r| (r.name.as_str(), r.record.as_str(), r.roster)).collect();
    // A roster whose owner is unknown is listed as "Unknown" with its own
    // record.
    assert_eq!(shown, vec![("Unknown", "7-3", 2), ("Mike", "7-3", 1), ("Nick (TT)", "5-5", 0)]);
}

#[test]
fn test_season_standings_order_and_records() {
    let users = vec![user("u1", Some("Nick"), Some("TT")), user("u2", Some("Mike"), None)];
    let rosters = vec![
        roster(1, Some("u1"), vec![], vec![], Some(settings(5, 5, 900))),
        roster(2, Some("u2"), vec![], vec![], Some(settings(7, 3, 800))),
        roster(3, Some("ghost"), vec![], vec![], Some(settings(7, 3, 950))),
        roster(4, None, vec![], vec![], Some(settings(9, 1, 1000))),
        roster(5, Some("u2"), vec![], vec![], None),
    ];
    let rows = season_standings(&users, &rosters);
    let shown: Vec<(&str, &str, usize)> = rows.iter().map(|r| (r.name.as_str(), r.record.as_str(), r.roster)).collect();
    // Each roster shows its own record; a roster without settings has none.
    assert_eq!(
        shown,
        vec![("Unknown", "7-3", 2), ("Mike", "7-3", 1), ("Nick (TT)", "5-5", 0), ("Mike", "0-0", 4)]
    );
}

#[test]
fn test_matchup_and_waiver_helpers() {
    let rosters = vec![
        roster(1, Some("u1"), vec!["p1"], vec![], None),
        roster(2, Some("u2"), vec![], vec![], None),
    ];
    assert_eq!(find_roster_by_name(&rosters, &names(), "tyrants"), Some(0));
    assert_eq!(find_roster_by_name(&rosters, &names(), "MIKE"), Some(1));
    assert_eq!(find_roster_by_name(&rosters, &names(), "zed"), None);
    let slots = vec![
        MatchupSlot { roster_id: 3, matchup_id: Some(1) },
        MatchupSlot { roster_id: 1, matchup_id: Some(2) },
        MatchupSlot { roster_id: 2, matchup_id: Some(2) },
    ];
    assert_eq!(find_matchup(&slots, 1), Some(1));
    assert_eq!(find_opponent(&slots, 1, 2), Some(2));
    assert_eq!(find_opponent(&slots, 3, 1), None);
    assert_eq!(no_matchup_message(7), "No matchup found for this team in week 7.");
    assert_eq!(unassigned_matchup_message(7), "No matchup assigned for week 7.");
    assert_eq!(no_team_message("X"), "No team found matching \"X\".");
    assert!(waiver_position_ok("RB", Some("rb")));
    assert!(!waiver_position_ok("RB", Some("WR")));
    assert!(!waiver_position_ok("LB", None));
    assert!(waiver_position_ok("DEF", None));
    assert!(is_rostered(&rosters, "p1"));
    assert!(!is_rostered(&rosters, "p2"));
    assert_eq!(no_available_message(Some("QB")), "No available players found at QB.");
    assert_eq!(no_available_message(None), "No available players found.");
}
