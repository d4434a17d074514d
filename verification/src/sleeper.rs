use vstd::prelude::*;
use vstd::string::*;
use std::collections::HashMap;

use crate::text::{
    chars_of, decimal, join, joined, push_decimal, push_str, same_text, str_or, string_of, text_or,
    trim, trimmed, views,
};

verus! {

broadcast use vstd::std_specs::hash::group_hash_axioms;

// ───────────── Data model ─────────────

/// The NFL calendar position reported by Sleeper.
#[derive(Debug)]
pub struct NflState {
    pub week: u32,
    pub season: String,
    pub season_type: String,
}

/// A league member.
#[derive(Debug)]
pub struct User {
    pub user_id: String,
    pub display_name: Option<String>,
    pub metadata: Option<UserMetadata>,
}

/// Free-form user metadata; only the team name is read.
#[derive(Debug)]
pub struct UserMetadata {
    pub team_name: Option<String>,
}

/// One team of a league.
#[derive(Debug)]
pub struct Roster {
    pub roster_id: u32,
    pub owner_id: Option<String>,
    pub players: Option<Vec<String>>,
    pub starters: Option<Vec<String>>,
    pub settings: Option<RosterSettings>,
}

/// Season record and points of a roster. Points are whole points plus
/// hundredths (`fpts` and `fpts_decimal`), as Sleeper reports them.
#[derive(Debug)]
pub struct RosterSettings {
    pub wins: Option<u32>,
    pub losses: Option<u32>,
    pub ties: Option<u32>,
    pub fpts: Option<u64>,
    pub fpts_decimal: Option<u64>,
    pub fpts_against: Option<u64>,
    pub fpts_against_decimal: Option<u64>,
}

/// A league transaction. Player adds and drops are kept as
/// (player id, roster id) pairs in the order they were listed.
#[derive(Debug)]
pub struct Transaction {
    pub tx_type: Option<String>,
    pub transaction_id: Option<String>,
    pub status: Option<String>,
    pub roster_ids: Option<Vec<u32>>,
    pub adds: Option<Vec<(String, u32)>>,
    pub drops: Option<Vec<(String, u32)>>,
    pub draft_picks: Option<Vec<DraftPick>>,
    pub created: Option<u64>,
    pub status_updated: Option<u64>,
}

/// A draft pick that changed hands.
#[derive(Debug)]
pub struct DraftPick {
    pub season: Option<String>,
    pub round: Option<u32>,
    pub roster_id: Option<u32>,
    pub previous_owner_id: Option<u32>,
    pub owner_id: Option<u32>,
}

/// Metadata for a league season. The numeric scoring table is not part of
/// this type: scoring values are fractional and are handled by the caller.
#[derive(Debug)]
pub struct League {
    pub league_id: Option<String>,
    pub name: Option<String>,
    pub season: Option<String>,
    pub status: Option<String>,
    pub previous_league_id: Option<String>,
    pub total_rosters: Option<u32>,
    pub roster_positions: Option<Vec<String>>,
    pub settings: Option<LeagueSettings>,
}

/// League-level settings.
#[derive(Debug)]
pub struct LeagueSettings {
    pub num_teams: Option<u32>,
    pub playoff_teams: Option<u32>,
    pub playoff_week_start: Option<u32>,
    pub playoff_type: Option<u32>,
    pub trade_deadline: Option<u32>,
    pub trade_review_days: Option<u32>,
    pub pick_trading: Option<u32>,
    pub waiver_type: Option<u32>,
    pub waiver_budget: Option<u32>,
    pub taxi_slots: Option<u32>,
    pub taxi_years: Option<u32>,
    pub taxi_allow_vets: Option<u32>,
    pub reserve_slots: Option<u32>,
    pub bench_lock: Option<u32>,
    pub best_ball: Option<u32>,
    pub disable_trades: Option<u32>,
    pub offseason_adds: Option<u32>,
    pub draft_rounds: Option<u32>,
    pub league_type: Option<u32>,
    pub position_limit_qb: Option<u32>,
}

/// One game of a playoff bracket: round, match number, the two rosters,
/// winner and loser.
#[derive(Clone, Copy, PartialEq, Eq, Structural, Debug)]
pub struct BracketMatch {
    pub r: u32,
    pub m: u32,
    pub t1: Option<u32>,
    pub t2: Option<u32>,
    pub w: Option<u32>,
    pub l: Option<u32>,
}

/// The champion of one season.
#[derive(Debug)]
pub struct SeasonChampion {
    pub season: String,
    pub display_name: String,
}

/// An NFL player.
#[derive(Debug)]
pub struct Player {
    pub player_id: Option<String>,
    pub first_name: Option<String>,
    pub last_name: Option<String>,
    pub position: Option<String>,
    pub team: Option<String>,
    pub age: Option<u32>,
    pub years_exp: Option<u32>,
    pub college: Option<String>,
    pub injury_status: Option<String>,
    pub injury_body_part: Option<String>,
    pub injury_notes: Option<String>,
    pub injury_start_date: Option<String>,
    pub depth_chart_order: Option<u32>,
    pub depth_chart_position: Option<String>,
    pub status: Option<String>,
    pub number: Option<u32>,
    pub birth_date: Option<String>,
    pub news_updated: Option<u64>,
}

/// Players by player id. A later insert under the same id replaces the
/// earlier player.
#[derive(Debug)]
pub struct PlayerMap {
    entries: Vec<(String, Player)>,
}

// ───────────── Specifications ─────────────

/// The record text "W-L", or "W-L-T" when there are ties.
pub open spec fn record_text(s: RosterSettings) -> Seq<char> {
    let w = decimal(s.wins.unwrap_or(0) as nat);
    let l = decimal(s.losses.unwrap_or(0) as nat);
    let t = s.ties.unwrap_or(0);
    if t > 0 {
        w + "-"@ + l + "-"@ + decimal(t as nat)
    } else {
        w + "-"@ + l
    }
}

/// Points scored, in hundredths of a point.
pub open spec fn points_hundredths(whole: Option<u64>, hundredths: Option<u64>) -> int {
    whole.unwrap_or(0) * 100 + hundredths.unwrap_or(0)
}

/// A completed trade: type "trade" and status "complete".
pub open spec fn completed_trade(tx: Transaction) -> bool {
    &&& tx.tx_type matches Some(t) && t@ == "trade"@
    &&& tx.status matches Some(st) && st@ == "complete"@
}

/// "First Last" with surrounding white space removed.
pub open spec fn full_name_text(p: Player) -> Seq<char> {
    trimmed(text_or(p.first_name, Seq::empty()) + " "@ + text_or(p.last_name, Seq::empty()))
}

/// The "Age" piece of a context summary.
pub open spec fn age_part(p: Player) -> Seq<Seq<char>> {
    match p.age {
        Some(age) => seq!["Age: "@ + decimal(age as nat)],
        None => Seq::empty(),
    }
}

/// The "Experience" piece of a context summary.
pub open spec fn experience_part(p: Player) -> Seq<Seq<char>> {
    match p.years_exp {
        Some(exp) => seq!["Experience: "@ + decimal(exp as nat) + " yr(s)"@],
        None => Seq::empty(),
    }
}

/// The "Status" piece of a context summary: only for a status other than
/// "Active".
pub open spec fn status_part(p: Player) -> Seq<Seq<char>> {
    match p.status {
        Some(st) => if st@ != "Active"@ {
            seq!["Status: "@ + st@]
        } else {
            Seq::empty()
        },
        None => Seq::empty(),
    }
}

/// " (part)" for a known injured body part.
pub open spec fn body_part_text(p: Player) -> Seq<char> {
    match p.injury_body_part {
        Some(bp) => " ("@ + bp@ + ")"@,
        None => Seq::empty(),
    }
}

/// " - notes" for known injury notes.
pub open spec fn notes_text(p: Player) -> Seq<char> {
    match p.injury_notes {
        Some(n) => " - "@ + n@,
        None => Seq::empty(),
    }
}

/// The "Injury" piece of a context summary, with body part and notes
/// when known.
pub open spec fn injury_part(p: Player) -> Seq<Seq<char>> {
    match p.injury_status {
        Some(inj) => seq!["Injury: "@ + inj@ + body_part_text(p) + notes_text(p)],
        None => Seq::empty(),
    }
}

/// The "Depth chart" piece of a context summary: needs order and position.
pub open spec fn depth_part(p: Player) -> Seq<Seq<char>> {
    match (p.depth_chart_order, p.depth_chart_position) {
        (Some(order), Some(pos)) => seq!["Depth chart: #"@ + decimal(order as nat) + " "@ + pos@],
        _ => Seq::empty(),
    }
}

/// The pieces of a player's context summary, in order.
pub open spec fn context_parts(p: Player) -> Seq<Seq<char>> {
    age_part(p) + experience_part(p) + status_part(p) + injury_part(p) + depth_part(p)
}

/// The user that a lookup by id finds: the last one listed with that id.
pub open spec fn user_by_id(users: Seq<User>, id: Seq<char>) -> Option<User>
    decreases users.len(),
{
    if users.len() == 0 {
        None
    } else if users.last().user_id@ == id {
        Some(users.last())
    } else {
        user_by_id(users.drop_last(), id)
    }
}

/// "Display (Team)" when the user has a non-empty team name, else the
/// display name; a missing display name reads "Unknown".
pub open spec fn owner_label(u: User) -> Seq<char> {
    let display = text_or(u.display_name, "Unknown"@);
    match u.metadata {
        Some(meta) => match meta.team_name {
            Some(team) => if team@.len() > 0 {
                display + " ("@ + team@ + ")"@
            } else {
                display
            },
            None => display,
        },
        None => display,
    }
}

/// The name a roster is shown under, when its owner is a known user.
pub open spec fn roster_label(users: Seq<User>, r: Roster) -> Option<Seq<char>> {
    match r.owner_id {
        Some(owner) => match user_by_id(users, owner@) {
            Some(u) => Some(owner_label(u)),
            None => None,
        },
        None => None,
    }
}

/// roster id → display name; a later roster with the same id wins.
pub open spec fn roster_name_map(users: Seq<User>, rosters: Seq<Roster>) -> Map<u32, Seq<char>>
    decreases rosters.len(),
{
    if rosters.len() == 0 {
        Map::empty()
    } else {
        let m = roster_name_map(users, rosters.drop_last());
        match roster_label(users, rosters.last()) {
            Some(name) => m.insert(rosters.last().roster_id, name),
            None => m,
        }
    }
}

/// The record text of a roster, "0-0" when it has no settings.
pub open spec fn roster_record_text(r: Roster) -> Seq<char> {
    match r.settings {
        Some(s) => record_text(s),
        None => "0-0"@,
    }
}

/// roster id → record text; a later roster with the same id wins.
pub open spec fn roster_record_map(rosters: Seq<Roster>) -> Map<u32, Seq<char>>
    decreases rosters.len(),
{
    if rosters.len() == 0 {
        Map::empty()
    } else {
        roster_record_map(rosters.drop_last()).insert(
            rosters.last().roster_id,
            roster_record_text(rosters.last()),
        )
    }
}

/// The text views of a map's values.
pub open spec fn text_map(m: Map<u32, String>) -> Map<u32, Seq<char>> {
    m.map_values(|s: String| s@)
}

/// A defense/special-teams id: at most four characters, all in 'A'..='Z'.
pub open spec fn is_team_defense_id(id: Seq<char>) -> bool {
    &&& id.len() <= 4
    &&& forall|i: int| 0 <= i < id.len() ==> 'A' <= #[trigger] id[i] && id[i] <= 'Z'
}

/// The display name of a player id.
pub open spec fn player_name_text(id: Seq<char>, p: Option<Player>) -> Seq<char> {
    if is_team_defense_id(id) {
        id + " D/ST"@
    } else {
        match p {
            Some(player) => {
                let name = full_name_text(player);
                let label = if name.len() == 0 { "Unknown"@ } else { name };
                let pos = text_or(player.position, "??"@);
                let team = text_or(player.team, "FA"@);
                label + " ("@ + pos + " - "@ + team + ")"@
            },
            None => "Unknown Player ("@ + id + ")"@,
        }
    }
}

/// The first entry stored under `key`.
pub open spec fn entry_lookup(entries: Seq<(String, Player)>, key: Seq<char>) -> Option<Player>
    decreases entries.len(),
{
    if entries.len() == 0 {
        None
    } else if entries[0].0@ == key {
        Some(entries[0].1)
    } else {
        entry_lookup(entries.drop_first(), key)
    }
}

impl PlayerMap {
    /// The player stored under `key`, if any.
    pub closed spec fn lookup(&self, key: Seq<char>) -> Option<Player> {
        entry_lookup(self.entries@, key)
    }

    /// The entries in the order they were first inserted: ids and players.
    pub closed spec fn listing(&self) -> Seq<(Seq<char>, Player)> {
        self.entries@.map_values(|e: (String, Player)| (e.0@, e.1))
    }

    /// A map holding the given entries; a lookup finds the first entry
    /// listed under a key.
    pub fn from_entries(entries: Vec<(String, Player)>) -> (m: Self)
        ensures
            m.listing() == entries@.map_values(|e: (String, Player)| (e.0@, e.1)),
            forall|k: Seq<char>| m.lookup(k) == entry_lookup(entries@, k),
    {
        PlayerMap { entries }
    }

    /// The number of players.
    pub fn len(&self) -> (n: usize)
        ensures
            n == self.listing().len(),
    {
        self.entries.len()
    }

    /// The entry at position `i` of the listing.
    pub fn entry(&self, i: usize) -> (r: (&String, &Player))
        requires
            i < self.listing().len(),
        ensures
            (r.0@, *r.1) == self.listing()[i as int],
    {
        (&self.entries[i].0, &self.entries[i].1)
    }

    /// An empty map.
    pub fn new() -> (m: Self)
        ensures
            forall|k: Seq<char>| m.lookup(k) is None,
    {
        PlayerMap { entries: Vec::new() }
    }

    /// Stores `player` under `key`, replacing any earlier player there.
    pub fn insert(&mut self, key: String, player: Player)
        ensures
            final(self).lookup(key@) == Some(player),
            forall|k: Seq<char>| k != key@ ==> final(self).lookup(k) == old(self).lookup(k),
    {
        let ghost old_entries = old(self).entries@;
        let mut i: usize = 0;
        while i < self.entries.len()
            invariant
                self.entries@ == old_entries,
                old(self).entries@ == old_entries,
                i <= self.entries.len(),
                forall|j: int| 0 <= j < i ==> self.entries@[j].0@ != key@,
            decreases self.entries.len() - i,
        {
            if same_text(self.entries[i].0.as_str(), key.as_str()) {
                proof {
                    lemma_lookup_set(old_entries, i as int, key, player);
                }
                let ghost new_entries = old_entries.update(i as int, (key, player));
                self.entries.set(i, (key, player));
                assert(self.entries@ == new_entries);
                assert forall|k: Seq<char>| k != key@ implies self.lookup(k) == old(self).lookup(k) by {
                    assert(entry_lookup(new_entries, k) == entry_lookup(old_entries, k));
                }
                return;
            }
            i = i + 1;
        }
        proof {
            lemma_lookup_push(old_entries, key, player);
        }
        self.entries.push((key, player));
    }

    /// The player stored under `key`, if any.
    pub fn get(&self, key: &str) -> (r: Option<&Player>)
        ensures
            match r {
                Some(p) => self.lookup(key@) == Some(*p),
                None => self.lookup(key@) is None,
            },
    {
        let mut i: usize = 0;
        assert(self.entries@.skip(0) =~= self.entries@);
        while i < self.entries.len()
            invariant
                i <= self.entries.len(),
                entry_lookup(self.entries@, key@) == entry_lookup(self.entries@.skip(i as int), key@),
            decreases self.entries.len() - i,
        {
            assert(self.entries@.skip(i as int).drop_first() =~= self.entries@.skip(i + 1));
            if same_text(self.entries[i].0.as_str(), key) {
                return Some(&self.entries[i].1);
            }
            i = i + 1;
        }
        None
    }
}

proof fn lemma_lookup_set(
    entries: Seq<(String, Player)>,
    i: int,
    key: String,
    player: Player,
)
    requires
        0 <= i < entries.len(),
        entries[i].0@ == key@,
        forall|j: int| 0 <= j < i ==> entries[j].0@ != key@,
    ensures
        entry_lookup(entries.update(i, (key, player)), key@) == Some(player),
        forall|k: Seq<char>| k != key@ ==> entry_lookup(entries.update(i, (key, player)), k)
            == entry_lookup(entries, k),
    decreases i,
{
    let e2 = entries.update(i, (key, player));
    if i > 0 {
        assert(e2.drop_first() =~= entries.drop_first().update(i - 1, (key, player)));
        lemma_lookup_set(entries.drop_first(), i - 1, key, player);
        assert(e2[0] == entries[0]);
    }
    assert forall|k: Seq<char>| k != key@ implies entry_lookup(e2, k) == entry_lookup(entries, k) by {
        if i > 0 {
            assert(e2[0] == entries[0]);
            assert(entry_lookup(e2.drop_first(), k) == entry_lookup(entries.drop_first(), k));
        } else {
            assert(e2.drop_first() =~= entries.drop_first());
            assert(e2[0].0@ == key@);
        }
    }
}

proof fn lemma_lookup_push(entries: Seq<(String, Player)>, key: String, player: Player)
    requires
        forall|j: int| 0 <= j < entries.len() ==> entries[j].0@ != key@,
    ensures
        entry_lookup(entries.push((key, player)), key@) == Some(player),
        forall|k: Seq<char>| k != key@ ==> entry_lookup(entries.push((key, player)), k)
            == entry_lookup(entries, k),
    decreases entries.len(),
{
    let e2 = entries.push((key, player));
    if entries.len() > 0 {
        assert(e2.drop_first() =~= entries.drop_first().push((key, player)));
        lemma_lookup_push(entries.drop_first(), key, player);
        assert(e2[0] == entries[0]);
    } else {
        assert(e2.drop_first() =~= Seq::<(String, Player)>::empty());
    }
    assert forall|k: Seq<char>| k != key@ implies entry_lookup(e2, k) == entry_lookup(entries, k) by {
        if entries.len() > 0 {
            assert(e2[0] == entries[0]);
            assert(entry_lookup(e2.drop_first(), k) == entry_lookup(entries.drop_first(), k));
        } else {
            assert(e2[0].0@ == key@);
            assert(entry_lookup(e2.drop_first(), k) is None);
        }
    }
}

// ───────────── Records, trades and players ─────────────

impl RosterSettings {
    /// The record as "W-L", or "W-L-T" when there are ties; missing
    /// counts read as zero.
    pub fn record(&self) -> (r: String)
        ensures
            r@ == record_text(*self),
    {
        let w = match self.wins { Some(v) => v, None => 0 };
        let l = match self.losses { Some(v) => v, None => 0 };
        let t = match self.ties { Some(v) => v, None => 0 };
        let mut r = String::new();
        push_decimal(&mut r, w as u64);
        push_str(&mut r, "-");
        push_decimal(&mut r, l as u64);
        if t > 0 {
            push_str(&mut r, "-");
            push_decimal(&mut r, t as u64);
        }
        r
    }

    /// Points scored, in hundredths of a point.
    pub fn points_for_hundredths(&self) -> (p: u128)
        ensures
            p == points_hundredths(self.fpts, self.fpts_decimal),
    {
        let whole = match self.fpts { Some(v) => v, None => 0 };
        let frac = match self.fpts_decimal { Some(v) => v, None => 0 };
        (whole as u128) * 100 + (frac as u128)
    }

    /// Points scored against, in hundredths of a point.
    pub fn points_against_hundredths(&self) -> (p: u128)
        ensures
            p == points_hundredths(self.fpts_against, self.fpts_against_decimal),
    {
        let whole = match self.fpts_against { Some(v) => v, None => 0 };
        let frac = match self.fpts_against_decimal { Some(v) => v, None => 0 };
        (whole as u128) * 100 + (frac as u128)
    }
}

impl Transaction {
    /// True exactly for a trade whose status is "complete".
    pub fn is_completed_trade(&self) -> (b: bool)
        ensures
            b == completed_trade(*self),
    {
        let is_trade = match &self.tx_type {
            Some(t) => same_text(t.as_str(), "trade"),
            None => false,
        };
        let is_complete = match &self.status {
            Some(st) => same_text(st.as_str(), "complete"),
            None => false,
        };
        is_trade && is_complete
    }

    /// The transaction id, "unknown" when there is none.
    pub fn id(&self) -> (r: &str)
        ensures
            r@ == text_or(self.transaction_id, "unknown"@),
    {
        str_or(&self.transaction_id, "unknown")
    }
}

impl Player {
    /// "First Last" without surrounding white space.
    pub fn full_name(&self) -> (r: String)
        ensures
            r@ == full_name_text(*self),
    {
        let mut s = String::new();
        push_str(&mut s, str_or(&self.first_name, ""));
        push_str(&mut s, " ");
        push_str(&mut s, str_or(&self.last_name, ""));
        proof {
            reveal_strlit("");
        }
        assert(s@ =~= text_or(self.first_name, Seq::empty()) + " "@ + text_or(self.last_name, Seq::empty()));
        trim(s.as_str())
    }

    /// Age, experience, non-active status, injury and depth chart, joined
    /// with ", "; each piece only when its data is present.
    pub fn context_summary(&self) -> (r: String)
        ensures
            r@ == joined(context_parts(*self), ", "@),
    {
        let mut parts: Vec<String> = Vec::new();
        if let Some(age) = self.age {
            let mut p = String::new();
            push_str(&mut p, "Age: ");
            push_decimal(&mut p, age as u64);
            parts.push(p);
        }
        assert(views(parts@) =~= age_part(*self));
        let ghost got = views(parts@);
        if let Some(exp) = self.years_exp {
            let mut p = String::new();
            push_str(&mut p, "Experience: ");
            push_decimal(&mut p, exp as u64);
            push_str(&mut p, " yr(s)");
            parts.push(p);
        }
        assert(views(parts@) =~= got + experience_part(*self));
        let ghost got = views(parts@);
        if let Some(status) = &self.status {
            if !same_text(status.as_str(), "Active") {
                let mut p = String::new();
                push_str(&mut p, "Status: ");
                push_str(&mut p, status.as_str());
                parts.push(p);
            }
        }
        assert(views(parts@) =~= got + status_part(*self));
        let ghost got = views(parts@);
        if let Some(injury) = &self.injury_status {
            let mut p = String::new();
            push_str(&mut p, "Injury: ");
            push_str(&mut p, injury.as_str());
            let ghost head = p@;
            if let Some(part) = &self.injury_body_part {
                push_str(&mut p, " (");
                push_str(&mut p, part.as_str());
                push_str(&mut p, ")");
            }
            assert(p@ =~= head + body_part_text(*self));
            let ghost mid = p@;
            if let Some(notes) = &self.injury_notes {
                push_str(&mut p, " - ");
                push_str(&mut p, notes.as_str());
            }
            assert(p@ =~= mid + notes_text(*self));
            parts.push(p);
        }
        assert(views(parts@) =~= got + injury_part(*self));
        let ghost got = views(parts@);
        if let Some(order) = self.depth_chart_order {
            if let Some(pos) = &self.depth_chart_position {
                let mut p = String::new();
                push_str(&mut p, "Depth chart: #");
                push_decimal(&mut p, order as u64);
                push_str(&mut p, " ");
                push_str(&mut p, pos.as_str());
                parts.push(p);
            }
        }
        assert(views(parts@) =~= got + depth_part(*self));
        join(&parts, ", ")
    }
}

/// The user a lookup by id finds: the last one listed with that id.
pub fn find_user<'a>(users: &'a [User], id: &str) -> (r: Option<&'a User>)
    ensures
        match r {
            Some(u) => user_by_id(users@, id@) == Some(*u),
            None => user_by_id(users@, id@) is None,
        },
{
    let mut i = users.len();
    assert(users@.take(i as int) =~= users@);
    while i > 0
        invariant
            i <= users.len(),
            user_by_id(users@, id@) == user_by_id(users@.take(i as int), id@),
        decreases i,
    {
        assert(users@.take(i as int).drop_last() =~= users@.take(i - 1));
        if same_text(users[i - 1].user_id.as_str(), id) {
            return Some(&users[i - 1]);
        }
        i = i - 1;
    }
    assert(users@.take(0) =~= Seq::<User>::empty());
    None
}

/// "Display (Team)" when the user has a non-empty team name, else the
/// display name ("Unknown" when missing).
pub fn owner_display(u: &User) -> (r: String)
    ensures
        r@ == owner_label(*u),
{
    let display = str_or(&u.display_name, "Unknown");
    let mut r = String::new();
    push_str(&mut r, display);
    if let Some(meta) = &u.metadata {
        if let Some(team) = &meta.team_name {
            if !team.as_str().is_empty() {
                push_str(&mut r, " (");
                push_str(&mut r, team.as_str());
                push_str(&mut r, ")");
            }
        }
    }
    r
}

/// Map each roster id to its owner's display name, with the team name in
/// parentheses when the owner has one. Rosters without an owner, or whose
/// owner is not among `users`, are left out.
pub fn build_roster_name_map(users: &[User], rosters: &[Roster]) -> (m: HashMap<u32, String>)
    ensures
        text_map(m@) == roster_name_map(users@, rosters@),
{
    let mut m: HashMap<u32, String> = HashMap::new();
    for i in 0..rosters.len()
        invariant
            text_map(m@) == roster_name_map(users@, rosters@.take(i as int)),
    {
        let r = &rosters[i];
        assert(rosters@.take(i + 1).drop_last() =~= rosters@.take(i as int));
        assert(rosters@.take(i + 1).last() == rosters@[i as int]);
        if let Some(owner) = &r.owner_id {
            if let Some(u) = find_user(users, owner.as_str()) {
                let name = owner_display(u);
                let ghost before = m@;
                m.insert(r.roster_id, name);
                assert(text_map(m@) =~= text_map(before).insert(r.roster_id, name@));
            }
        }
    }
    assert(rosters@.take(rosters.len() as int) =~= rosters@);
    m
}

/// Map each roster id to its record ("0-0" when the roster has no settings).
pub fn build_roster_record_map(rosters: &[Roster]) -> (m: HashMap<u32, String>)
    ensures
        text_map(m@) == roster_record_map(rosters@),
{
    let mut m: HashMap<u32, String> = HashMap::new();
    for i in 0..rosters.len()
        invariant
            text_map(m@) == roster_record_map(rosters@.take(i as int)),
    {
        let r = &rosters[i];
        assert(rosters@.take(i + 1).drop_last() =~= rosters@.take(i as int));
        assert(rosters@.take(i + 1).last() == rosters@[i as int]);
        let record = match &r.settings {
            Some(s) => s.record(),
            None => {
                let mut z = String::new();
                push_str(&mut z, "0-0");
                z
            },
        };
        let ghost before = m@;
        m.insert(r.roster_id, record);
        assert(text_map(m@) =~= text_map(before).insert(r.roster_id, record@));
    }
    assert(rosters@.take(rosters.len() as int) =~= rosters@);
    m
}

/// Whether an id names a team defense: at most four characters, all
/// upper-case ASCII letters.
pub fn is_defense_id(id: &str) -> (b: bool)
    ensures
        b == is_team_defense_id(id@),
{
    let v = chars_of(id);
    if v.len() > 4 {
        return false;
    }
    let mut i: usize = 0;
    while i < v.len()
        invariant
            v@ == id@,
            i <= v.len(),
            forall|k: int| 0 <= k < i ==> 'A' <= #[trigger] v@[k] && v@[k] <= 'Z',
        decreases v.len() - i,
    {
        if !('A' <= v[i] && v[i] <= 'Z') {
            return false;
        }
        i = i + 1;
    }
    true
}

/// The display name of a player id: "XXX D/ST" for a team defense,
/// "Name (POS - TEAM)" for a known player, "Unknown Player (id)" otherwise.
pub fn format_player_name(player_id: &str, players: &PlayerMap) -> (r: String)
    ensures
        r@ == player_name_text(player_id@, players.lookup(player_id@)),
{
    let mut r = String::new();
    if is_defense_id(player_id) {
        push_str(&mut r, player_id);
        push_str(&mut r, " D/ST");
        return r;
    }
    match players.get(player_id) {
        Some(player) => {
            let name = player.full_name();
            let pos = str_or(&player.position, "??");
            let team = str_or(&player.team, "FA");
            if name.as_str().is_empty() {
                push_str(&mut r, "Unknown");
            } else {
                push_str(&mut r, name.as_str());
            }
            push_str(&mut r, " (");
            push_str(&mut r, pos);
            push_str(&mut r, " - ");
            push_str(&mut r, team);
            push_str(&mut r, ")");
        },
        None => {
            push_str(&mut r, "Unknown Player (");
            push_str(&mut r, player_id);
            push_str(&mut r, ")");
        },
    }
    r
}


/// How long, in days, the cached NFL player list is used before it is
/// fetched again.
pub const CACHE_MAX_AGE_DAYS: u64 = 7;

/// Whether a player cache written `age_secs` seconds ago is too old to use:
/// older than [`CACHE_MAX_AGE_DAYS`] whole days.
pub fn player_cache_is_stale(age_secs: u64) -> (b: bool)
    ensures
        b <==> age_secs > CACHE_MAX_AGE_DAYS * 86400,
{
    age_secs > CACHE_MAX_AGE_DAYS * 86400
}

} // verus!
