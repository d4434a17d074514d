//! League history: walking back through past seasons, the playoff bracket
//! of a season, champions and all-time totals.
use vstd::prelude::*;
use vstd::string::*;

use crate::order::{is_ranking, is_text_ranking, rank_desc, rank_text_desc};
use crate::sleeper::{
    points_hundredths, text_map, BracketMatch, League, Roster, RosterSettings, SeasonChampion, User,
};
use crate::text::{
    chars_of, decimal, lines_text, push_decimal, push_lines, push_str, same_text, str_or, text_or,
};
use std::collections::HashMap;

verus! {

broadcast use vstd::std_specs::hash::group_hash_axioms;

// ───────────── Walking back ─────────────

/// The league of the season before: a previous league id that is neither
/// empty nor "0".
pub open spec fn previous_season(league: League) -> Option<Seq<char>> {
    match league.previous_league_id {
        Some(p) => if p@.len() > 0 && p@ != "0"@ {
            Some(p@)
        } else {
            None
        },
        None => None,
    }
}

/// The id of the league of the season before, if there is one.
pub fn previous_league_id(league: &League) -> (r: Option<String>)
    ensures
        match r {
            Some(p) => previous_season(*league) == Some(p@),
            None => previous_season(*league) is None,
        },
{
    match &league.previous_league_id {
        Some(p) => if p.unicode_len() > 0 && !same_text(p.as_str(), "0") {
            Some(p.clone())
        } else {
            None
        },
        None => None,
    }
}

/// The answer when the history ends before the requested season.
pub open spec fn short_history_text(seasons_ago: u32, reached: u32) -> Seq<char> {
    "Could not go back "@ + decimal(seasons_ago as nat) + " season(s) — league history only goes back "@
        + decimal(reached as nat) + " season(s)."@
}

/// The answer when the history ends `reached` seasons back, before the
/// requested `seasons_ago`.
pub fn short_history_message(seasons_ago: u32, reached: u32) -> (r: String)
    ensures
        r@ == short_history_text(seasons_ago, reached),
{
    let mut r = String::new();
    push_str(&mut r, "Could not go back ");
    push_decimal(&mut r, seasons_ago as u64);
    push_str(&mut r, " season(s) — league history only goes back ");
    push_decimal(&mut r, reached as u64);
    push_str(&mut r, " season(s).");
    r
}

/// One step of walking back to a past season.
#[derive(Debug)]
pub enum SeasonWalk {
    /// Stop and give this answer.
    Answer(String),
    /// Fetch this league to find the season before it.
    Fetch(String),
    /// The season asked for is this league.
    Arrived(String),
}

/// The first step of walking back `seasons_ago` seasons from league
/// `league_id`: the current season is not looked up (its standings answer
/// that), any other starts by fetching the current league.
pub fn season_walk_start(seasons_ago: u32, league_id: &str) -> (r: SeasonWalk)
    ensures
        seasons_ago == 0 ==> (r matches SeasonWalk::Answer(t) && t@
            == "Use get_league_standings for the current season."@),
        seasons_ago > 0 ==> (r matches SeasonWalk::Fetch(id) && id@ == league_id@),
{
    if seasons_ago == 0 {
        SeasonWalk::Answer(String::from_str("Use get_league_standings for the current season."))
    } else {
        SeasonWalk::Fetch(String::from_str(league_id))
    }
}

/// The next step once `hops` seasons were walked back and the league then
/// reached was fetched: its previous season is the next league, and the
/// one asked for once `seasons_ago` seasons are walked back; without a
/// previous season the history is too short.
pub fn season_walk_step(seasons_ago: u32, hops: u32, fetched: &League) -> (r: SeasonWalk)
    requires
        hops < seasons_ago,
    ensures
        match previous_season(*fetched) {
            None => r matches SeasonWalk::Answer(t) && t@ == short_history_text(seasons_ago, hops),
            Some(p) => if hops + 1 == seasons_ago {
                r matches SeasonWalk::Arrived(id) && id@ == p
            } else {
                r matches SeasonWalk::Fetch(id) && id@ == p
            },
        },
{
    match previous_league_id(fetched) {
        None => SeasonWalk::Answer(short_history_message(seasons_ago, hops)),
        Some(p) => if hops + 1 == seasons_ago {
            SeasonWalk::Arrived(p)
        } else {
            SeasonWalk::Fetch(p)
        },
    }
}

/// "League — Season Season Results" and a blank line.
pub open spec fn season_header_text(league: League) -> Seq<char> {
    text_or(league.name, "Unknown League"@) + " — "@ + text_or(league.season, "Unknown"@)
        + " Season Results\n\n"@
}

/// The heading of a past season's results.
pub fn season_header(league: &League) -> (r: String)
    ensures
        r@ == season_header_text(*league),
{
    let mut r = String::new();
    push_str(&mut r, crate::text::str_or(&league.name, "Unknown League"));
    push_str(&mut r, " — ");
    push_str(&mut r, crate::text::str_or(&league.season, "Unknown"));
    push_str(&mut r, " Season Results\n\n");
    r
}

// ───────────── Playoff bracket ─────────────

/// The highest round of a bracket (0 when it is empty).
pub open spec fn max_round(b: Seq<BracketMatch>) -> u32
    decreases b.len(),
{
    if b.len() == 0 {
        0
    } else {
        let m = max_round(b.drop_last());
        if b.last().r > m {
            b.last().r
        } else {
            m
        }
    }
}

/// The label of a round: the last is the championship, the one before it
/// the semifinals when there are more than two rounds.
pub open spec fn round_label_text(round: u32, max: u32) -> Seq<char> {
    if round == max {
        "Championship"@
    } else if round + 1 == max && max > 2 {
        "Semifinals"@
    } else {
        "Round "@ + decimal(round as nat)
    }
}

/// The label of a round of a bracket whose last round is `max`.
pub fn round_label(round: u32, max: u32) -> (r: String)
    ensures
        r@ == round_label_text(round, max),
{
    if round == max {
        String::from_str("Championship")
    } else if max > 2 && round == max - 1 {
        String::from_str("Semifinals")
    } else {
        let mut r = String::new();
        push_str(&mut r, "Round ");
        push_decimal(&mut r, round as u64);
        r
    }
}

/// The games of one round, in bracket order.
pub open spec fn round_games(b: Seq<BracketMatch>, round: u32) -> Seq<BracketMatch>
    decreases b.len(),
{
    if b.len() == 0 {
        Seq::empty()
    } else if b.last().r == round {
        round_games(b.drop_last(), round).push(b.last())
    } else {
        round_games(b.drop_last(), round)
    }
}

/// `x` placed after every game numbered at most `x.m`.
pub open spec fn insert_by_number(sorted: Seq<BracketMatch>, x: BracketMatch) -> Seq<BracketMatch>
    decreases sorted.len(),
{
    if sorted.len() == 0 {
        seq![x]
    } else if sorted.last().m <= x.m {
        sorted.push(x)
    } else {
        insert_by_number(sorted.drop_last(), x).push(sorted.last())
    }
}

/// The games ordered by game number; games with the same number keep
/// their order (a stable sort).
pub open spec fn by_number(s: Seq<BracketMatch>) -> Seq<BracketMatch>
    decreases s.len(),
{
    if s.len() == 0 {
        Seq::empty()
    } else {
        insert_by_number(by_number(s.drop_last()), s.last())
    }
}

/// The name of an optional roster: its entry in `names`, else `default`.
pub open spec fn slot_name(names: Map<u32, Seq<char>>, id: Option<u32>, default: Seq<char>) -> Seq<char> {
    match id {
        Some(i) => if names.contains_key(i) {
            names[i]
        } else {
            default
        },
        None => default,
    }
}

/// "    A vs B", with " → Winner: W" when the winner has a name.
pub open spec fn game_line(g: BracketMatch, names: Map<u32, Seq<char>>) -> Seq<char> {
    let winner = match g.w {
        Some(i) => if names.contains_key(i) {
            " → Winner: "@ + names[i]
        } else {
            Seq::empty()
        },
        None => Seq::empty(),
    };
    "    "@ + slot_name(names, g.t1, "TBD"@) + " vs "@ + slot_name(names, g.t2, "TBD"@) + winner
}

/// The lines of rounds 1 to `upto`: a label line, then the games.
pub open spec fn rounds_text(b: Seq<BracketMatch>, names: Map<u32, Seq<char>>, max: u32, upto: nat) -> Seq<char>
    decreases upto,
{
    if upto == 0 {
        Seq::empty()
    } else {
        let round = upto as u32;
        rounds_text(b, names, max, (upto - 1) as nat) + "  "@ + round_label_text(round, max) + ":\n"@
            + lines_text(by_number(round_games(b, round)).map_values(|g: BracketMatch| game_line(g, names)))
    }
}

/// The first game of the last round numbered 1.
pub open spec fn final_game(b: Seq<BracketMatch>, max: u32) -> Option<BracketMatch>
    decreases b.len(),
{
    if b.len() == 0 {
        None
    } else if b[0].r == max && b[0].m == 1 {
        Some(b[0])
    } else {
        final_game(b.drop_first(), max)
    }
}

/// "\nChampion: Name\n" when the final has a winner.
pub open spec fn champion_line(b: Seq<BracketMatch>, names: Map<u32, Seq<char>>) -> Seq<char> {
    match final_game(b, max_round(b)) {
        Some(g) => match g.w {
            Some(w) => "\nChampion: "@ + slot_name(names, Some(w), "Unknown"@) + "\n"@,
            None => Seq::empty(),
        },
        None => Seq::empty(),
    }
}

/// The playoff bracket section of a past season's results (nothing for an
/// empty bracket).
pub open spec fn bracket_text(b: Seq<BracketMatch>, names: Map<u32, Seq<char>>) -> Seq<char> {
    if b.len() == 0 {
        Seq::empty()
    } else {
        "\nPlayoff Bracket:\n"@ + rounds_text(b, names, max_round(b), max_round(b) as nat)
            + champion_line(b, names)
    }
}

/// Inserting after the last game numbered at most `x.m` is a splice.
proof fn lemma_insert_by_number(s: Seq<BracketMatch>, x: BracketMatch, idx: int)
    requires
        0 <= idx <= s.len(),
        forall|k: int| idx <= k < s.len() ==> s[k].m > x.m,
        idx > 0 ==> s[idx - 1].m <= x.m,
    ensures
        insert_by_number(s, x) == s.take(idx).push(x) + s.skip(idx),
    decreases s.len(),
{
    if s.len() == idx {
        assert(s.take(idx) =~= s);
        assert(s.skip(idx) =~= Seq::<BracketMatch>::empty());
        if s.len() == 0 {
            assert(s.take(idx).push(x) + s.skip(idx) =~= seq![x]);
        } else {
            assert(s.take(idx).push(x) + s.skip(idx) =~= s.push(x));
        }
    } else {
        lemma_insert_by_number(s.drop_last(), x, idx);
        assert(s.drop_last().take(idx) =~= s.take(idx));
        assert((s.take(idx).push(x) + s.drop_last().skip(idx)).push(s.last()) =~= s.take(idx).push(x)
            + s.skip(idx));
    }
}

/// The largest round number of a bracket.
fn bracket_max_round(b: &[BracketMatch]) -> (m: u32)
    ensures
        m == max_round(b@),
{
    let mut m: u32 = 0;
    for i in 0..b.len()
        invariant
            m == max_round(b@.take(i as int)),
    {
        assert(b@.take(i + 1).drop_last() =~= b@.take(i as int));
        if b[i].r > m {
            m = b[i].r;
        }
    }
    assert(b@.take(b.len() as int) =~= b@);
    m
}

/// The games of one round ordered by game number (stable).
fn sorted_round(b: &[BracketMatch], round: u32) -> (v: Vec<BracketMatch>)
    ensures
        v@ == by_number(round_games(b@, round)),
{
    let mut v: Vec<BracketMatch> = Vec::new();
    for i in 0..b.len()
        invariant
            v@ == by_number(round_games(b@.take(i as int), round)),
    {
        assert(b@.take(i + 1).drop_last() =~= b@.take(i as int));
        assert(b@.take(i + 1).last() == b@[i as int]);
        let g = b[i];
        if g.r == round {
            let mut idx = v.len();
            while idx > 0 && v[idx - 1].m > g.m
                invariant
                    idx <= v.len(),
                    forall|k: int| idx <= k < v.len() ==> v@[k].m > g.m,
                decreases idx,
            {
                idx = idx - 1;
            }
            proof {
                lemma_insert_by_number(v@, g, idx as int);
                let prev = round_games(b@.take(i as int), round);
                assert(round_games(b@.take(i + 1), round) == prev.push(g));
                assert(prev.push(g).drop_last() =~= prev);
            }
            let ghost before = v@;
            v.insert(idx, g);
            assert(v@ =~= before.take(idx as int).push(g) + before.skip(idx as int));
        }
    }
    assert(b@.take(b.len() as int) =~= b@);
    v
}

/// The name of an optional roster, or `default`.
fn slot(names: &HashMap<u32, String>, id: Option<u32>, default: &str) -> (r: String)
    ensures
        r@ == slot_name(text_map(names@), id, default@),
{
    match id {
        Some(i) => match names.get(&i) {
            Some(n) => n.clone(),
            None => String::from_str(default),
        },
        None => String::from_str(default),
    }
}

/// The line of one game.
fn game(g: &BracketMatch, names: &HashMap<u32, String>) -> (r: String)
    ensures
        r@ == game_line(*g, text_map(names@)),
{
    let mut r = String::new();
    push_str(&mut r, "    ");
    let t1 = slot(names, g.t1, "TBD");
    push_str(&mut r, t1.as_str());
    push_str(&mut r, " vs ");
    let t2 = slot(names, g.t2, "TBD");
    push_str(&mut r, t2.as_str());
    if let Some(w) = g.w {
        if let Some(n) = names.get(&w) {
            push_str(&mut r, " → Winner: ");
            push_str(&mut r, n.as_str());
        }
    }
    r
}

/// The playoff bracket of a past season: each round, labelled, with its
/// games in game-number order and their winners, then the champion.
/// Nothing for an empty bracket.
pub fn bracket_report(b: &[BracketMatch], names: &HashMap<u32, String>) -> (r: String)
    ensures
        r@ == bracket_text(b@, text_map(names@)),
{
    let ghost nm = text_map(names@);
    let mut r = String::new();
    if b.len() == 0 {
        return r;
    }
    let max = bracket_max_round(b);
    push_str(&mut r, "\nPlayoff Bracket:\n");
    let ghost head = r@;
    let mut round: u64 = 1;
    while round <= max as u64
        invariant
            1 <= round <= max as u64 + 1,
            max == max_round(b@),
            nm == text_map(names@),
            r@ == head + rounds_text(b@, nm, max, (round - 1) as nat),
        decreases max as u64 + 1 - round,
    {
        let rd = round as u32;
        let label = round_label(rd, max);
        push_str(&mut r, "  ");
        push_str(&mut r, label.as_str());
        push_str(&mut r, ":\n");
        let games = sorted_round(b, rd);
        let mut lines: Vec<String> = Vec::new();
        for k in 0..games.len()
            invariant
                views_of_lines(lines@) == games@.take(k as int).map_values(|g: BracketMatch| game_line(g, nm)),
                nm == text_map(names@),
        {
            let line = game(&games[k], names);
            let ghost before = views_of_lines(lines@);
            lines.push(line);
            assert(views_of_lines(lines@) =~= before.push(line@));
            assert(games@.take(k + 1).map_values(|g: BracketMatch| game_line(g, nm)) =~= games@.take(
                k as int,
            ).map_values(|g: BracketMatch| game_line(g, nm)).push(game_line(games@[k as int], nm)));
        }
        assert(games@.take(games.len() as int) =~= games@);
        push_lines(&mut r, &lines);
        assert(rd as nat == round as nat);
        round = round + 1;
    }
    let ghost all = r@;
    let mut i: usize = 0;
    assert(b@.skip(0) =~= b@);
    while i < b.len()
        invariant
            i <= b.len(),
            final_game(b@, max) == final_game(b@.skip(i as int), max),
        ensures
            i <= b.len(),
            final_game(b@, max) == final_game(b@.skip(i as int), max),
            i < b.len() ==> b@[i as int].r == max && b@[i as int].m == 1,
        decreases b.len() - i,
    {
        assert(b@.skip(i as int).drop_first() =~= b@.skip(i + 1));
        if b[i].r == max && b[i].m == 1 {
            break;
        }
        i = i + 1;
    }
    if i < b.len() {
        assert(b@.skip(i as int)[0] == b@[i as int]);
        if let Some(w) = b[i].w {
            push_str(&mut r, "\nChampion: ");
            let champ = slot(names, Some(w), "Unknown");
            push_str(&mut r, champ.as_str());
            push_str(&mut r, "\n");
        }
    } else {
        assert(b@.skip(i as int) =~= Seq::<BracketMatch>::empty());
    }
    r
}

// ───────────── Champions and all-time totals ─────────────

/// The most points one roster can hold, in hundredths.
pub const MAX_ROSTER_POINTS: u128 = 1863121151444664713115;

/// One user's totals over the seasons looked at; points in hundredths.
#[derive(Debug)]
pub struct UserTotals {
    pub user_id: String,
    pub display_name: String,
    pub seasons: u64,
    pub wins: u64,
    pub losses: u64,
    pub points_for: u128,
    pub points_against: u128,
    pub championships: u64,
}

/// A user's totals as plain values: id, name, seasons, wins, losses,
/// points for, points against, championships.
pub type TotalsRow = (Seq<char>, Seq<char>, int, int, int, int, int, int);

/// The plain values of a user's totals.
pub open spec fn totals_row(t: UserTotals) -> TotalsRow {
    (
        t.user_id@,
        t.display_name@,
        t.seasons as int,
        t.wins as int,
        t.losses as int,
        t.points_for as int,
        t.points_against as int,
        t.championships as int,
    )
}

/// The plain values of a list of totals.
pub open spec fn totals_rows(v: Seq<UserTotals>) -> Seq<TotalsRow> {
    v.map_values(|t: UserTotals| totals_row(t))
}

/// The position of the totals of user `id`.
pub open spec fn row_index(t: Seq<TotalsRow>, id: Seq<char>) -> Option<int>
    decreases t.len(),
{
    if t.len() == 0 {
        None
    } else if t[0].0 == id {
        Some(0)
    } else {
        match row_index(t.drop_first(), id) {
            Some(i) => Some(i + 1),
            None => None,
        }
    }
}

/// The display name of user `id`: the last user listed with that id and a
/// display name.
pub open spec fn display_of(users: Seq<User>, id: Seq<char>) -> Option<Seq<char>>
    decreases users.len(),
{
    if users.len() == 0 {
        None
    } else if users.last().user_id@ == id && users.last().display_name is Some {
        Some(users.last().display_name->0@)
    } else {
        display_of(users.drop_last(), id)
    }
}

/// The owner of roster `rid`: the last roster listed with that id and an
/// owner.
pub open spec fn owner_of_roster(rosters: Seq<Roster>, rid: u32) -> Option<Seq<char>>
    decreases rosters.len(),
{
    if rosters.len() == 0 {
        None
    } else if rosters.last().roster_id == rid && rosters.last().owner_id is Some {
        Some(rosters.last().owner_id->0@)
    } else {
        owner_of_roster(rosters.drop_last(), rid)
    }
}

/// A row with one more season added; its name stays.
pub open spec fn bump(row: TotalsRow, s: RosterSettings) -> TotalsRow {
    (
        row.0,
        row.1,
        row.2 + 1,
        row.3 + s.wins.unwrap_or(0),
        row.4 + s.losses.unwrap_or(0),
        row.5 + points_hundredths(s.fpts, s.fpts_decimal),
        row.6 + points_hundredths(s.fpts_against, s.fpts_against_decimal),
        row.7,
    )
}

/// The totals with one roster's season added to its owner. The seasons
/// are recorded from the newest back, so an owner keeps the name of the
/// first season recorded for it: its most recent name.
pub open spec fn add_roster(t: Seq<TotalsRow>, owner: Seq<char>, name: Seq<char>, s: RosterSettings) -> Seq<TotalsRow> {
    match row_index(t, owner) {
        Some(i) => t.update(i, bump(t[i], s)),
        None => t.push(bump((owner, name, 0, 0, 0, 0, 0, 0), s)),
    }
}

/// The totals with every roster that has an owner and settings added, in
/// order; an owner without a display name reads "Unknown".
pub open spec fn add_rosters(t: Seq<TotalsRow>, users: Seq<User>, rosters: Seq<Roster>) -> Seq<TotalsRow>
    decreases rosters.len(),
{
    if rosters.len() == 0 {
        t
    } else {
        let before = add_rosters(t, users, rosters.drop_last());
        let r = rosters.last();
        match (r.owner_id, r.settings) {
            (Some(o), Some(st)) => add_roster(
                before,
                o@,
                match display_of(users, o@) {
                    Some(n) => n,
                    None => "Unknown"@,
                },
                st,
            ),
            _ => before,
        }
    }
}

/// The first game of round `max` numbered 1 that has a winner.
pub open spec fn winning_game(b: Seq<BracketMatch>, max: u32) -> Option<BracketMatch>
    decreases b.len(),
{
    if b.len() == 0 {
        None
    } else if b[0].r == max && b[0].m == 1 && b[0].w is Some {
        Some(b[0])
    } else {
        winning_game(b.drop_first(), max)
    }
}

/// The champion of a season: (season, champion's name, champion's user
/// id). Only a completed season with a bracket has one: the winner of the
/// first game numbered 1 of the last round that has a winner; an unknown
/// owner reads "" and an unknown name "Unknown".
pub open spec fn season_champion(
    league_id: Seq<char>,
    league: League,
    users: Seq<User>,
    rosters: Seq<Roster>,
    bracket: Option<Seq<BracketMatch>>,
) -> Option<(Seq<char>, Seq<char>, Seq<char>)> {
    if !(league.status matches Some(st) && st@ == "complete"@) {
        None
    } else {
        match bracket {
            None => None,
            Some(b) => if b.len() == 0 {
                None
            } else {
                match winning_game(b, max_round(b)) {
                    None => None,
                    Some(g) => {
                        let owner = match owner_of_roster(rosters, g.w->0) {
                            Some(o) => o,
                            None => Seq::empty(),
                        };
                        Some((
                            text_or(league.season, league_id),
                            match display_of(users, owner) {
                                Some(n) => n,
                                None => "Unknown"@,
                            },
                            owner,
                        ))
                    },
                }
            },
        }
    }
}

/// The totals with one more championship for `owner`, when it has totals.
pub open spec fn add_championship(t: Seq<TotalsRow>, owner: Seq<char>) -> Seq<TotalsRow> {
    match row_index(t, owner) {
        Some(i) => t.update(i, (t[i].0, t[i].1, t[i].2, t[i].3, t[i].4, t[i].5, t[i].6, t[i].7 + 1)),
        None => t,
    }
}

/// A champion as plain values.
pub open spec fn champion_row(c: SeasonChampion) -> (Seq<char>, Seq<char>) {
    (c.season@, c.display_name@)
}

/// The plain values of a list of champions.
pub open spec fn champion_rows(v: Seq<SeasonChampion>) -> Seq<(Seq<char>, Seq<char>)> {
    v.map_values(|c: SeasonChampion| champion_row(c))
}

/// The seasons of a list of champions.
pub open spec fn champion_seasons(c: Seq<(Seq<char>, Seq<char>)>) -> Seq<Seq<char>> {
    c.map_values(|x: (Seq<char>, Seq<char>)| x.0)
}

/// The ranking keys of totals: wins (no second key).
pub open spec fn win_keys(t: Seq<TotalsRow>) -> Seq<(u64, u128)> {
    t.map_values(|x: TotalsRow| (x.3 as u64, 0u128))
}

/// What is gathered while walking back through a league's seasons: the
/// leagues seen, each completed season's champion, and each user's
/// totals (in order of first appearance).
pub struct LeagueHistory {
    visited: Vec<String>,
    champions: Vec<SeasonChampion>,
    totals: Vec<UserTotals>,
    counted: u64,
    seasons: u64,
}

impl LeagueHistory {
    /// The league ids seen, in order.
    pub closed spec fn visited_ids(&self) -> Seq<Seq<char>> {
        crate::text::views(self.visited@)
    }

    /// The champions found, in the order found.
    pub closed spec fn champion_list(&self) -> Seq<(Seq<char>, Seq<char>)> {
        champion_rows(self.champions@)
    }

    /// The totals gathered, in order of first appearance.
    pub closed spec fn totals_list(&self) -> Seq<TotalsRow> {
        totals_rows(self.totals@)
    }

    /// How many rosters were counted so far.
    pub closed spec fn rosters_counted(&self) -> nat {
        self.counted as nat
    }

    /// How many seasons were recorded so far.
    pub closed spec fn seasons_recorded(&self) -> nat {
        self.seasons as nat
    }

    /// Counts stay within what their types hold: a user's counts and
    /// points grow by at most one roster's worth per counted roster.
    pub closed spec fn well_formed(&self) -> bool {
        &&& crate::text::views(self.visited@).no_duplicates()
        &&& self.counted <= 4294967296
        &&& self.seasons <= 4294967296
        &&& forall|k: int| 0 <= k < self.totals@.len() ==> {
            let t = #[trigger] self.totals@[k];
            &&& t.seasons <= self.counted
            &&& t.wins <= t.seasons * 4294967295
            &&& t.losses <= t.seasons * 4294967295
            &&& t.points_for <= t.seasons * MAX_ROSTER_POINTS
            &&& t.points_against <= t.seasons * MAX_ROSTER_POINTS
            &&& t.championships <= self.seasons
        }
    }

    /// How many rosters were counted so far.
    pub fn counted(&self) -> (n: u64)
        ensures
            n == self.rosters_counted(),
    {
        self.counted
    }

    /// How many seasons were recorded so far.
    pub fn seasons(&self) -> (n: u64)
        ensures
            n == self.seasons_recorded(),
    {
        self.seasons
    }

    /// A well-formed walk has seen no league twice.
    pub proof fn lemma_visited_unique(&self)
        requires
            self.well_formed(),
        ensures
            self.visited_ids().no_duplicates(),
    {
    }

    /// Nothing gathered yet.
    pub fn new() -> (h: Self)
        ensures
            h.well_formed(),
            h.visited_ids() == Seq::<Seq<char>>::empty(),
            h.champion_list() == Seq::<(Seq<char>, Seq<char>)>::empty(),
            h.totals_list() == Seq::<TotalsRow>::empty(),
            h.rosters_counted() == 0,
            h.seasons_recorded() == 0,
    {
        let h = LeagueHistory {
            visited: Vec::new(),
            champions: Vec::new(),
            totals: Vec::new(),
            counted: 0,
            seasons: 0,
        };
        assert(h.visited_ids() =~= Seq::<Seq<char>>::empty());
        assert(h.champion_list() =~= Seq::<(Seq<char>, Seq<char>)>::empty());
        assert(h.totals_list() =~= Seq::<TotalsRow>::empty());
        h
    }

    /// Start on league `league_id`: `false` when it was seen already (the
    /// walk has looped), else it is marked as seen.
    pub fn enter_league(&mut self, league_id: &str) -> (fresh: bool)
        requires
            old(self).well_formed(),
        ensures
            final(self).well_formed(),
            fresh == !old(self).visited_ids().contains(league_id@),
            final(self).visited_ids() == if fresh {
                old(self).visited_ids().push(league_id@)
            } else {
                old(self).visited_ids()
            },
            final(self).champion_list() == old(self).champion_list(),
            final(self).totals_list() == old(self).totals_list(),
            final(self).rosters_counted() == old(self).rosters_counted(),
            final(self).seasons_recorded() == old(self).seasons_recorded(),
    {
        let mut i: usize = 0;
        while i < self.visited.len()
            invariant
                *self == *old(self),
                old(self).well_formed(),
                i <= self.visited.len(),
                forall|k: int| 0 <= k < i ==> self.visited@[k]@ != league_id@,
            decreases self.visited.len() - i,
        {
            if same_text(self.visited[i].as_str(), league_id) {
                assert(self.visited_ids()[i as int] == league_id@);
                return false;
            }
            i = i + 1;
        }
        assert(!self.visited_ids().contains(league_id@)) by {
            assert forall|k: int| 0 <= k < self.visited_ids().len() implies self.visited_ids()[k] != league_id@ by {
                assert(self.visited_ids()[k] == self.visited@[k]@);
            }
        }
        let ghost before = self.visited_ids();
        self.visited.push(String::from_str(league_id));
        assert(self.visited_ids() =~= before.push(league_id@));
        assert(self.visited_ids().no_duplicates()) by {
            assert forall|a: int, b: int| 0 <= a < b < self.visited_ids().len() implies self.visited_ids()[a]
                != self.visited_ids()[b] by {
                if b == before.len() {
                    assert(before[a] == self.visited_ids()[a]);
                }
            }
        }
        true
    }
}

/// The display name of user `id`, if a user listed with it has one.
fn display_name_of<'a>(users: &'a [User], id: &str) -> (r: Option<&'a str>)
    ensures
        match r {
            Some(n) => display_of(users@, id@) == Some(n@),
            None => display_of(users@, id@) is None,
        },
{
    let mut i = users.len();
    assert(users@.take(i as int) =~= users@);
    while i > 0
        invariant
            i <= users.len(),
            display_of(users@, id@) == display_of(users@.take(i as int), id@),
        decreases i,
    {
        assert(users@.take(i as int).drop_last() =~= users@.take(i - 1));
        if same_text(users[i - 1].user_id.as_str(), id) {
            if let Some(n) = &users[i - 1].display_name {
                return Some(n.as_str());
            }
        }
        i = i - 1;
    }
    None
}

/// The owner of roster `rid`, if a roster listed with it has one.
fn roster_owner_id<'a>(rosters: &'a [Roster], rid: u32) -> (r: Option<&'a str>)
    ensures
        match r {
            Some(o) => owner_of_roster(rosters@, rid) == Some(o@),
            None => owner_of_roster(rosters@, rid) is None,
        },
{
    let mut i = rosters.len();
    assert(rosters@.take(i as int) =~= rosters@);
    while i > 0
        invariant
            i <= rosters.len(),
            owner_of_roster(rosters@, rid) == owner_of_roster(rosters@.take(i as int), rid),
        decreases i,
    {
        assert(rosters@.take(i as int).drop_last() =~= rosters@.take(i - 1));
        if rosters[i - 1].roster_id == rid {
            if let Some(o) = &rosters[i - 1].owner_id {
                return Some(o.as_str());
            }
        }
        i = i - 1;
    }
    None
}

/// The position of the totals of user `id`.
fn find_totals(totals: &Vec<UserTotals>, id: &str) -> (r: Option<usize>)
    ensures
        match r {
            Some(i) => row_index(totals_rows(totals@), id@) == Some(i as int) && i < totals.len(),
            None => row_index(totals_rows(totals@), id@) is None,
        },
{
    let ghost rows = totals_rows(totals@);
    let mut i: usize = 0;
    assert(rows.skip(0) =~= rows);
    while i < totals.len()
        invariant
            i <= totals.len(),
            rows == totals_rows(totals@),
            forall|k: int| 0 <= k < i ==> rows[k].0 != id@,
            row_index(rows, id@) == match row_index(rows.skip(i as int), id@) {
                Some(j) => Some(j + i),
                None => None,
            },
        decreases totals.len() - i,
    {
        assert(rows.skip(i as int).drop_first() =~= rows.skip(i + 1));
        assert(rows.skip(i as int)[0] == rows[i as int]);
        if same_text(totals[i].user_id.as_str(), id) {
            return Some(i);
        }
        i = i + 1;
    }
    assert(rows.skip(i as int) =~= Seq::<TotalsRow>::empty());
    None
}

impl LeagueHistory {
    /// Add one roster's season to its owner's totals.
    fn add_roster_season(&mut self, owner: &str, name: &str, st: &RosterSettings)
        requires
            old(self).well_formed(),
            old(self).counted < 4294967296,
        ensures
            final(self).well_formed(),
            final(self).totals_list() == add_roster(old(self).totals_list(), owner@, name@, *st),
            final(self).counted == old(self).counted + 1,
            final(self).seasons == old(self).seasons,
            final(self).champion_list() == old(self).champion_list(),
            final(self).visited_ids() == old(self).visited_ids(),
    {
        let wins = match st.wins { Some(v) => v, None => 0 };
        let losses = match st.losses { Some(v) => v, None => 0 };
        let pf = st.points_for_hundredths();
        let pa = st.points_against_hundredths();
        let ghost rows = self.totals_list();
        self.counted = self.counted + 1;
        match find_totals(&self.totals, owner) {
            Some(i) => {
                let t = &self.totals[i];
                assert(self.totals@[i as int] == *t);
                let n = UserTotals {
                    user_id: t.user_id.clone(),
                    display_name: t.display_name.clone(),
                    seasons: t.seasons + 1,
                    wins: t.wins + wins as u64,
                    losses: t.losses + losses as u64,
                    points_for: t.points_for + pf,
                    points_against: t.points_against + pa,
                    championships: t.championships,
                };
                assert(n.user_id@ == rows[i as int].0);
                self.totals.set(i, n);
                assert(self.totals_list() =~= rows.update(i as int, bump(rows[i as int], *st)));
            },
            None => {
                let n = UserTotals {
                    user_id: String::from_str(owner),
                    display_name: String::from_str(name),
                    seasons: 1,
                    wins: wins as u64,
                    losses: losses as u64,
                    points_for: pf,
                    points_against: pa,
                    championships: 0,
                };
                self.totals.push(n);
                assert(self.totals_list() =~= rows.push(bump((owner@, name@, 0, 0, 0, 0, 0, 0), *st)));
            },
        }
    }

    /// Record one season of the walk: every roster with an owner and
    /// settings adds a season to its owner's totals, and a completed season
    /// whose winners bracket was fetched adds its champion (and one
    /// championship to the champion's totals). Seasons are recorded from the
    /// newest back, so each owner keeps the name of its most recent season.
    pub fn record_season(
        &mut self,
        league_id: &str,
        league: &League,
        users: &[User],
        rosters: &[Roster],
        bracket: Option<&[BracketMatch]>,
    )
        requires
            old(self).well_formed(),
            old(self).rosters_counted() + rosters.len() <= 4294967296,
            old(self).seasons_recorded() < 4294967296,
        ensures
            final(self).well_formed(),
            final(self).visited_ids() == old(self).visited_ids(),
            final(self).rosters_counted() <= old(self).rosters_counted() + rosters.len(),
            final(self).seasons_recorded() == old(self).seasons_recorded() + 1,
            ({
                let added = add_rosters(old(self).totals_list(), users@, rosters@);
                match season_champion(
                    league_id@,
                    *league,
                    users@,
                    rosters@,
                    match bracket { Some(b) => Some(b@), None => None },
                ) {
                    Some((season, name, owner)) => {
                        &&& final(self).champion_list() == old(self).champion_list().push((season, name))
                        &&& final(self).totals_list() == add_championship(added, owner)
                    },
                    None => {
                        &&& final(self).champion_list() == old(self).champion_list()
                        &&& final(self).totals_list() == added
                    },
                }
            }),
    {
        let ghost start = self.totals_list();
        let ghost counted0 = self.counted;
        for i in 0..rosters.len()
            invariant
                self.well_formed(),
                self.totals_list() == add_rosters(start, users@, rosters@.take(i as int)),
                self.counted <= counted0 + i,
                counted0 + rosters.len() <= 4294967296,
                self.seasons == old(self).seasons,
                self.seasons < 4294967296,
                self.champion_list() == old(self).champion_list(),
                self.visited_ids() == old(self).visited_ids(),
        {
            assert(rosters@.take(i + 1).drop_last() =~= rosters@.take(i as int));
            assert(rosters@.take(i + 1).last() == rosters@[i as int]);
            let r = &rosters[i];
            if let (Some(owner), Some(st)) = (&r.owner_id, &r.settings) {
                let name = match display_name_of(users, owner.as_str()) {
                    Some(n) => n,
                    None => "Unknown",
                };
                self.add_roster_season(owner.as_str(), name, st);
            }
        }
        assert(rosters@.take(rosters.len() as int) =~= rosters@);
        self.seasons = self.seasons + 1;
        let complete = match &league.status {
            Some(st) => same_text(st.as_str(), "complete"),
            None => false,
        };
        if !complete {
            return;
        }
        let b = match bracket {
            Some(b) => b,
            None => {
                return;
            },
        };
        if b.len() == 0 {
            return;
        }
        let max = bracket_max_round(b);
        let mut k: usize = 0;
        assert(b@.skip(0) =~= b@);
        while k < b.len()
            invariant
                k <= b.len(),
                winning_game(b@, max) == winning_game(b@.skip(k as int), max),
            ensures
                k <= b.len(),
                winning_game(b@, max) == winning_game(b@.skip(k as int), max),
                k < b.len() ==> b@[k as int].r == max && b@[k as int].m == 1 && b@[k as int].w is Some,
            decreases b.len() - k,
        {
            assert(b@.skip(k as int).drop_first() =~= b@.skip(k + 1));
            if b[k].r == max && b[k].m == 1 && b[k].w.is_some() {
                break;
            }
            k = k + 1;
        }
        if k == b.len() {
            assert(b@.skip(k as int) =~= Seq::<BracketMatch>::empty());
            return;
        }
        assert(b@.skip(k as int)[0] == b@[k as int]);
        let winner = match b[k].w {
            Some(w) => w,
            None => 0,
        };
        let owner: &str = match roster_owner_id(rosters, winner) {
            Some(o) => o,
            None => "",
        };
        proof {
            reveal_strlit("");
        }
        assert(""@ =~= Seq::<char>::empty());
        let name = match display_name_of(users, owner) {
            Some(n) => n,
            None => "Unknown",
        };
        let season = match &league.season {
            Some(s) => s.clone(),
            None => String::from_str(league_id),
        };
        let ghost champs = self.champion_list();
        self.champions.push(SeasonChampion { season, display_name: String::from_str(name) });
        assert(self.champion_list() =~= champs.push((text_or(league.season, league_id@), name@)));
        let ghost rows = self.totals_list();
        match find_totals(&self.totals, owner) {
            Some(i) => {
                let t = &self.totals[i];
                assert(self.totals@[i as int] == *t);
                let n = UserTotals {
                    user_id: t.user_id.clone(),
                    display_name: t.display_name.clone(),
                    seasons: t.seasons,
                    wins: t.wins,
                    losses: t.losses,
                    points_for: t.points_for,
                    points_against: t.points_against,
                    championships: t.championships + 1,
                };
                self.totals.set(i, n);
                assert(self.totals_list() =~= add_championship(rows, owner@));
            },
            None => {},
        }
    }

    /// The champions, most recent season first (ties keep the order found):
    /// a stable sort by descending season text.
    pub fn champions_by_season(&self) -> (v: Vec<SeasonChampion>)
        ensures
            exists|order: Seq<usize>| {
                &&& #[trigger] is_text_ranking(champion_seasons(self.champion_list()), order)
                &&& champion_rows(v@) == order.map_values(|k: usize| self.champion_list()[k as int])
            },
    {
        let mut keys: Vec<Vec<char>> = Vec::new();
        for i in 0..self.champions.len()
            invariant
                keys@.map_values(|k: Vec<char>| k@) == champion_seasons(self.champion_list().take(i as int)),
        {
            let k = chars_of(self.champions[i].season.as_str());
            assert(self.champion_list()[i as int] == champion_row(self.champions@[i as int]));
            let ghost prev = keys@.map_values(|k: Vec<char>| k@);
            keys.push(k);
            assert(keys@.map_values(|k: Vec<char>| k@) =~= prev.push(k@));
            assert(champion_seasons(self.champion_list().take(i + 1)) =~= champion_seasons(
                self.champion_list().take(i as int),
            ).push(self.champion_list()[i as int].0));
            assert(keys@.map_values(|k: Vec<char>| k@) =~= champion_seasons(self.champion_list().take(i + 1)));
        }
        assert(self.champion_list().take(self.champions.len() as int) =~= self.champion_list());
        let order = rank_text_desc(&keys);
        let mut v: Vec<SeasonChampion> = Vec::new();
        for t in 0..order.len()
            invariant
                order.len() == self.champions.len(),
                forall|u: int| 0 <= u < order.len() ==> #[trigger] order@[u] < self.champions.len(),
                champion_rows(v@) == order@.take(t as int).map_values(|k: usize| self.champion_list()[k as int]),
        {
            let c = &self.champions[order[t]];
            let copy = SeasonChampion { season: c.season.clone(), display_name: c.display_name.clone() };
            assert(self.champion_list()[order@[t as int] as int] == champion_row(*c));
            let ghost before = champion_rows(v@);
            v.push(copy);
            assert(champion_rows(v@) =~= before.push(champion_row(copy)));
            assert(champion_rows(v@) =~= order@.take(t + 1).map_values(
                |k: usize| self.champion_list()[k as int],
            ));
        }
        assert(order@.take(order.len() as int) =~= order@);
        v
    }

    /// The totals, most wins first (ties keep the order of first
    /// appearance): a stable sort by descending wins.
    pub fn totals_by_wins(&self) -> (v: Vec<UserTotals>)
        ensures
            exists|order: Seq<usize>| {
                &&& #[trigger] is_ranking(win_keys(self.totals_list()), order)
                &&& totals_rows(v@) == order.map_values(|k: usize| self.totals_list()[k as int])
            },
    {
        let mut keys: Vec<(u64, u128)> = Vec::new();
        for i in 0..self.totals.len()
            invariant
                keys@ == win_keys(self.totals_list().take(i as int)),
        {
            assert(self.totals_list()[i as int] == totals_row(self.totals@[i as int]));
            keys.push((self.totals[i].wins, 0));
            assert(keys@ =~= win_keys(self.totals_list().take(i + 1)));
        }
        assert(self.totals_list().take(self.totals.len() as int) =~= self.totals_list());
        let order = rank_desc(&keys);
        let mut v: Vec<UserTotals> = Vec::new();
        for t in 0..order.len()
            invariant
                order.len() == self.totals.len(),
                forall|u: int| 0 <= u < order.len() ==> #[trigger] order@[u] < self.totals.len(),
                totals_rows(v@) == order@.take(t as int).map_values(|k: usize| self.totals_list()[k as int]),
        {
            let c = &self.totals[order[t]];
            let copy = UserTotals {
                user_id: c.user_id.clone(),
                display_name: c.display_name.clone(),
                seasons: c.seasons,
                wins: c.wins,
                losses: c.losses,
                points_for: c.points_for,
                points_against: c.points_against,
                championships: c.championships,
            };
            assert(self.totals_list()[order@[t as int] as int] == totals_row(*c));
            let ghost before = totals_rows(v@);
            v.push(copy);
            assert(totals_rows(v@) =~= before.push(totals_row(copy)));
            assert(totals_rows(v@) =~= order@.take(t + 1).map_values(|k: usize| self.totals_list()[k as int]));
        }
        assert(order@.take(order.len() as int) =~= order@);
        v
    }
}

// ───────────── Reports ─────────────

/// "  Season — Name" per champion.
pub open spec fn champion_lines(c: Seq<SeasonChampion>) -> Seq<Seq<char>> {
    c.map_values(|x: SeasonChampion| "  "@ + x.season@ + " — "@ + x.display_name@)
}

/// The league history answer: the champions, then the all-time lines
/// (a blank line between the two parts), or a note that there is no
/// history.
pub open spec fn league_history_text(champions: Seq<SeasonChampion>, all_time: Seq<Seq<char>>) -> Seq<char> {
    let first = if champions.len() > 0 {
        "League Champions:\n"@ + lines_text(champion_lines(champions))
    } else {
        Seq::empty()
    };
    let second = if all_time.len() > 0 {
        (if first.len() > 0 { "\n"@ } else { Seq::empty() }) + "All-Time Stats:\n"@ + lines_text(all_time)
    } else {
        Seq::empty()
    };
    if first.len() + second.len() == 0 {
        "No league history available."@
    } else {
        first + second
    }
}

/// The league history answer, given the champions (most recent first) and
/// one line per user's all-time totals.
pub fn league_history_report(champions: &Vec<SeasonChampion>, all_time_lines: &Vec<String>) -> (r: String)
    ensures
        r@ == league_history_text(champions@, views_of_lines(all_time_lines@)),
{
    let mut r = String::new();
    if champions.len() > 0 {
        push_str(&mut r, "League Champions:\n");
        let mut lines: Vec<String> = Vec::new();
        for i in 0..champions.len()
            invariant
                views_of_lines(lines@) == champion_lines(champions@.take(i as int)),
        {
            let mut l = String::new();
            push_str(&mut l, "  ");
            push_str(&mut l, champions[i].season.as_str());
            push_str(&mut l, " — ");
            push_str(&mut l, champions[i].display_name.as_str());
            let ghost before = views_of_lines(lines@);
            lines.push(l);
            assert(views_of_lines(lines@) =~= before.push(l@));
            assert(champion_lines(champions@.take(i + 1)) =~= champion_lines(champions@.take(i as int)).push(l@));
        }
        assert(champions@.take(champions.len() as int) =~= champions@);
        push_lines(&mut r, &lines);
    }
    let ghost first = r@;
    if all_time_lines.len() > 0 {
        if r.unicode_len() > 0 {
            push_str(&mut r, "\n");
        }
        push_str(&mut r, "All-Time Stats:\n");
        push_lines(&mut r, all_time_lines);
    }
    if r.unicode_len() == 0 {
        return String::from_str("No league history available.");
    }
    r
}

/// A past season's results: the heading, the final standings lines, and
/// the playoff bracket when one was fetched.
pub open spec fn past_season_text(
    league: League,
    standings: Seq<Seq<char>>,
    bracket: Option<Seq<BracketMatch>>,
    names: Map<u32, Seq<char>>,
) -> Seq<char> {
    season_header_text(league) + "Final Standings:\n"@ + lines_text(standings) + match bracket {
        Some(b) => bracket_text(b, names),
        None => Seq::empty(),
    }
}

/// A past season's results, given its final standings lines (best first)
/// and its winners bracket, if it could be fetched.
pub fn past_season_report(
    league: &League,
    standings: &Vec<String>,
    bracket: Option<&[BracketMatch]>,
    names: &HashMap<u32, String>,
) -> (r: String)
    ensures
        r@ == past_season_text(
            *league,
            views_of_lines(standings@),
            match bracket { Some(b) => Some(b@), None => None },
            text_map(names@),
        ),
{
    let mut r = season_header(league);
    push_str(&mut r, "Final Standings:\n");
    push_lines(&mut r, standings);
    if let Some(b) = bracket {
        let br = bracket_report(b, names);
        push_str(&mut r, br.as_str());
    }
    r
}

/// The texts of a list of lines.
pub open spec fn views_of_lines(v: Seq<String>) -> Seq<Seq<char>> {
    crate::text::views(v)
}

} // verus!
