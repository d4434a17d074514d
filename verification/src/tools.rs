//! The tools the chat agent can call: parsing a call, and the reports the
//! tools give.
use vstd::prelude::*;
use vstd::string::*;

use crate::json::{doc_member, item_text, item_u64, JsonDoc, JsonDocView};
use crate::order::{is_ranking, rank_desc};
use crate::sleeper::{
    find_user, full_name_text, owner_display, owner_label, points_hundredths,
    roster_record_text, text_map, user_by_id, Player, PlayerMap, Roster, Transaction, User,
};
use crate::text::{
    contains, decimal, eq_ignore_ascii_case, eq_ignore_case, has_substring, join, joined,
    lines_text, lowercase, push_decimal, push_lines, push_str, same_text, str_or, text_or,
    to_lower, views,
};
use std::collections::HashMap;

verus! {

// ───────────── Tool calls ─────────────

/// Represents each tool the LLM can call during an agentic conversation.
#[derive(Debug)]
pub enum ToolName {
    /// Current league standings (team name, record, points for/against).
    GetLeagueStandings,
    /// Full roster (starters + bench) for a team, matched fuzzily.
    GetTeamRoster { team_name: String },
    /// Detailed info for a named player.
    GetPlayerInfo { player_name: String },
    /// Top unrostered players by projected points, optionally by position.
    SearchWaiverWire { position: Option<String>, limit: Option<u32> },
    /// Recent transactions, optionally filtered by type.
    GetRecentTransactions { tx_type: Option<String>, limit: Option<u32> },
    /// Current week matchup for a team.
    GetMatchup { team_name: String },
    /// Past season champions and all-time stats.
    GetLeagueHistory,
    /// Final standings, bracket and champion of a past season.
    GetPastSeasonResults { seasons_ago: u32 },
    /// League chat history filtered by author, keyword and dates.
    SearchLeagueMessages {
        username: Option<String>,
        keyword: Option<String>,
        after_date: Option<String>,
        before_date: Option<String>,
    },
}

/// A [`ToolName`] with its texts as character sequences.
pub enum ToolNameView {
    GetLeagueStandings,
    GetTeamRoster { team_name: Seq<char> },
    GetPlayerInfo { player_name: Seq<char> },
    SearchWaiverWire { position: Option<Seq<char>>, limit: Option<u32> },
    GetRecentTransactions { tx_type: Option<Seq<char>>, limit: Option<u32> },
    GetMatchup { team_name: Seq<char> },
    GetLeagueHistory,
    GetPastSeasonResults { seasons_ago: u32 },
    SearchLeagueMessages {
        username: Option<Seq<char>>,
        keyword: Option<Seq<char>>,
        after_date: Option<Seq<char>>,
        before_date: Option<Seq<char>>,
    },
}

/// The view of an optional string.
pub open spec fn opt_view(o: Option<String>) -> Option<Seq<char>> {
    match o {
        Some(s) => Some(s@),
        None => None,
    }
}

impl View for ToolName {
    type V = ToolNameView;

    open spec fn view(&self) -> ToolNameView {
        match self {
            ToolName::GetLeagueStandings => ToolNameView::GetLeagueStandings,
            ToolName::GetTeamRoster { team_name } => ToolNameView::GetTeamRoster {
                team_name: team_name@,
            },
            ToolName::GetPlayerInfo { player_name } => ToolNameView::GetPlayerInfo {
                player_name: player_name@,
            },
            ToolName::SearchWaiverWire { position, limit } => ToolNameView::SearchWaiverWire {
                position: opt_view(*position),
                limit: *limit,
            },
            ToolName::GetRecentTransactions { tx_type, limit } => ToolNameView::GetRecentTransactions {
                tx_type: opt_view(*tx_type),
                limit: *limit,
            },
            ToolName::GetMatchup { team_name } => ToolNameView::GetMatchup { team_name: team_name@ },
            ToolName::GetLeagueHistory => ToolNameView::GetLeagueHistory,
            ToolName::GetPastSeasonResults { seasons_ago } => ToolNameView::GetPastSeasonResults {
                seasons_ago: *seasons_ago,
            },
            ToolName::SearchLeagueMessages { username, keyword, after_date, before_date } =>
                ToolNameView::SearchLeagueMessages {
                username: opt_view(*username),
                keyword: opt_view(*keyword),
                after_date: opt_view(*after_date),
                before_date: opt_view(*before_date),
            },
        }
    }
}

/// Why a tool call could not be understood.
#[derive(Debug)]
pub enum ToolCallError {
    /// A required argument is absent or not of the expected type.
    MissingArgument { tool: String, argument: String, expected: String },
    /// No tool has this name.
    UnknownTool { name: String },
}

/// The message of a tool-call error.
pub open spec fn tool_error_text(e: ToolCallError) -> Seq<char> {
    match e {
        ToolCallError::MissingArgument { tool, argument, expected } => tool@ + " requires '"@
            + argument@ + "' ("@ + expected@ + ")"@,
        ToolCallError::UnknownTool { name } => "Unknown tool: "@ + name@,
    }
}

impl ToolCallError {
    /// The message shown for this error.
    pub fn message(&self) -> (r: String)
        ensures
            r@ == tool_error_text(*self),
    {
        let mut s = String::new();
        match self {
            ToolCallError::MissingArgument { tool, argument, expected } => {
                push_str(&mut s, tool.as_str());
                push_str(&mut s, " requires '");
                push_str(&mut s, argument.as_str());
                push_str(&mut s, "' (");
                push_str(&mut s, expected.as_str());
                push_str(&mut s, ")");
            },
            ToolCallError::UnknownTool { name } => {
                push_str(&mut s, "Unknown tool: ");
                push_str(&mut s, name.as_str());
            },
        }
        s
    }
}

/// The error for a missing argument, as plain texts.
pub open spec fn missing(tool: Seq<char>, argument: Seq<char>, expected: Seq<char>) -> (Seq<char>, Seq<char>, Seq<char>) {
    (tool, argument, expected)
}

/// The view of a tool-call error: `Ok` holds a missing argument's (tool,
/// argument, expected type), `Err` an unknown tool's name.
pub open spec fn tool_error_view(e: ToolCallError) -> Result<(Seq<char>, Seq<char>, Seq<char>), Seq<char>> {
    match e {
        ToolCallError::MissingArgument { tool, argument, expected } => Ok(
            missing(tool@, argument@, expected@),
        ),
        ToolCallError::UnknownTool { name } => Err(name@),
    }
}

/// A required string argument.
pub open spec fn required_text(
    input: JsonDocView,
    tool: Seq<char>,
    arg: Seq<char>,
) -> Result<Seq<char>, Result<(Seq<char>, Seq<char>, Seq<char>), Seq<char>>> {
    match item_text(doc_member(input, arg)) {
        Some(s) => Ok(s),
        None => Err(Ok(missing(tool, arg, "string"@))),
    }
}

/// `as_u64` truncated to 32 bits (`n as u32`).
pub open spec fn limit_arg(input: JsonDocView, arg: Seq<char>) -> Option<u32> {
    match item_u64(doc_member(input, arg)) {
        Some(n) => Some(n as u32),
        None => None,
    }
}

/// What a tool call `name` with arguments `input` is understood as: the
/// tool, or the error (`Ok` of a missing argument, `Err` of an unknown
/// tool name).
pub open spec fn tool_call_spec(
    name: Seq<char>,
    input: JsonDocView,
) -> Result<ToolNameView, Result<(Seq<char>, Seq<char>, Seq<char>), Seq<char>>> {
    if name == "get_league_standings"@ {
        Ok(ToolNameView::GetLeagueStandings)
    } else if name == "get_team_roster"@ {
        match required_text(input, name, "team_name"@) {
            Ok(t) => Ok(ToolNameView::GetTeamRoster { team_name: t }),
            Err(e) => Err(e),
        }
    } else if name == "get_player_info"@ {
        match required_text(input, name, "player_name"@) {
            Ok(t) => Ok(ToolNameView::GetPlayerInfo { player_name: t }),
            Err(e) => Err(e),
        }
    } else if name == "search_waiver_wire"@ {
        Ok(ToolNameView::SearchWaiverWire {
            position: item_text(doc_member(input, "position"@)),
            limit: limit_arg(input, "limit"@),
        })
    } else if name == "get_recent_transactions"@ {
        Ok(ToolNameView::GetRecentTransactions {
            tx_type: item_text(doc_member(input, "tx_type"@)),
            limit: limit_arg(input, "limit"@),
        })
    } else if name == "get_matchup"@ {
        match required_text(input, name, "team_name"@) {
            Ok(t) => Ok(ToolNameView::GetMatchup { team_name: t }),
            Err(e) => Err(e),
        }
    } else if name == "get_league_history"@ {
        Ok(ToolNameView::GetLeagueHistory)
    } else if name == "get_past_season_results"@ {
        match limit_arg(input, "seasons_ago"@) {
            Some(n) => Ok(ToolNameView::GetPastSeasonResults { seasons_ago: n }),
            None => Err(Ok(missing(name, "seasons_ago"@, "integer"@))),
        }
    } else if name == "search_league_messages"@ {
        Ok(ToolNameView::SearchLeagueMessages {
            username: item_text(doc_member(input, "username"@)),
            keyword: item_text(doc_member(input, "keyword"@)),
            after_date: item_text(doc_member(input, "after_date"@)),
            before_date: item_text(doc_member(input, "before_date"@)),
        })
    } else {
        Err(Err(name))
    }
}

/// A string argument, copied.
fn text_arg(input: &JsonDoc, arg: &str) -> (r: Option<String>)
    ensures
        opt_view(r) == item_text(doc_member(input@, arg@)),
{
    match input.get_str(arg) {
        Some(s) => Some(String::from_str(s)),
        None => None,
    }
}

/// An integer argument truncated to 32 bits.
fn u32_arg(input: &JsonDoc, arg: &str) -> (r: Option<u32>)
    ensures
        r == limit_arg(input@, arg@),
{
    match input.get_u64(arg) {
        Some(n) => Some(#[verifier::truncate] (n as u32)),
        None => None,
    }
}

/// The error for a required argument that is missing.
fn missing_arg(tool: &str, argument: &str, expected: &str) -> (e: ToolCallError)
    ensures
        tool_error_view(e) == Ok::<(Seq<char>, Seq<char>, Seq<char>), Seq<char>>(
            missing(tool@, argument@, expected@),
        ),
{
    ToolCallError::MissingArgument {
        tool: String::from_str(tool),
        argument: String::from_str(argument),
        expected: String::from_str(expected),
    }
}

/// A required string argument, or the error naming it.
fn required_arg(input: &JsonDoc, tool: &str, arg: &str) -> (r: Result<String, ToolCallError>)
    ensures
        match r {
            Ok(s) => required_text(input@, tool@, arg@) == Ok::<
                Seq<char>,
                Result<(Seq<char>, Seq<char>, Seq<char>), Seq<char>>,
            >(s@),
            Err(e) => required_text(input@, tool@, arg@) == Err::<
                Seq<char>,
                Result<(Seq<char>, Seq<char>, Seq<char>), Seq<char>>,
            >(tool_error_view(e)),
        },
{
    proof {
        reveal_strlit("string");
    }
    match input.get_str(arg) {
        Some(s) => Ok(String::from_str(s)),
        None => Err(missing_arg(tool, arg, "string")),
    }
}

/// Parse an LLM tool call (name + JSON input) into a [`ToolName`].
pub fn parse_tool_call(name: &str, input: &JsonDoc) -> (r: Result<ToolName, ToolCallError>)
    ensures
        match r {
            Ok(t) => tool_call_spec(name@, input@) == Ok::<
                ToolNameView,
                Result<(Seq<char>, Seq<char>, Seq<char>), Seq<char>>,
            >(t@),
            Err(e) => tool_call_spec(name@, input@) == Err::<
                ToolNameView,
                Result<(Seq<char>, Seq<char>, Seq<char>), Seq<char>>,
            >(tool_error_view(e)),
        },
{
    if same_text(name, "get_league_standings") {
        Ok(ToolName::GetLeagueStandings)
    } else if same_text(name, "get_team_roster") {
        match required_arg(input, name, "team_name") {
            Ok(t) => Ok(ToolName::GetTeamRoster { team_name: t }),
            Err(e) => Err(e),
        }
    } else if same_text(name, "get_player_info") {
        match required_arg(input, name, "player_name") {
            Ok(t) => Ok(ToolName::GetPlayerInfo { player_name: t }),
            Err(e) => Err(e),
        }
    } else if same_text(name, "search_waiver_wire") {
        Ok(ToolName::SearchWaiverWire {
            position: text_arg(input, "position"),
            limit: u32_arg(input, "limit"),
        })
    } else if same_text(name, "get_recent_transactions") {
        Ok(ToolName::GetRecentTransactions {
            tx_type: text_arg(input, "tx_type"),
            limit: u32_arg(input, "limit"),
        })
    } else if same_text(name, "get_matchup") {
        match required_arg(input, name, "team_name") {
            Ok(t) => Ok(ToolName::GetMatchup { team_name: t }),
            Err(e) => Err(e),
        }
    } else if same_text(name, "get_league_history") {
        Ok(ToolName::GetLeagueHistory)
    } else if same_text(name, "get_past_season_results") {
        match u32_arg(input, "seasons_ago") {
            Some(n) => Ok(ToolName::GetPastSeasonResults { seasons_ago: n }),
            None => Err(missing_arg(name, "seasons_ago", "integer")),
        }
    } else if same_text(name, "search_league_messages") {
        Ok(ToolName::SearchLeagueMessages {
            username: text_arg(input, "username"),
            keyword: text_arg(input, "keyword"),
            after_date: text_arg(input, "after_date"),
            before_date: text_arg(input, "before_date"),
        })
    } else {
        Err(ToolCallError::UnknownTool { name: String::from_str(name) })
    }
}

// ───────────── Standings ─────────────

/// A line of the league standings: the team's name, its record, and the
/// position of its roster.
#[derive(Debug)]
pub struct StandingRow {
    pub name: String,
    pub record: String,
    pub roster: usize,
}

/// The positions of the rosters that have an owner, in order.
pub open spec fn owned_positions(rosters: Seq<Roster>) -> Seq<usize>
    decreases rosters.len(),
{
    if rosters.len() == 0 {
        Seq::empty()
    } else if rosters.last().owner_id is Some {
        owned_positions(rosters.drop_last()).push((rosters.len() - 1) as usize)
    } else {
        owned_positions(rosters.drop_last())
    }
}

/// The name a roster is listed under in the standings: its owner's label,
/// "Unknown" when the owner is not a known user.
pub open spec fn standings_name(users: Seq<User>, r: Roster) -> Seq<char> {
    match roster_owner(users, r) {
        Some(u) => owner_label(u),
        None => "Unknown"@,
    }
}

/// The ranking key of a roster: wins, then points in hundredths.
pub open spec fn standings_key(r: Roster) -> (u64, u128) {
    match r.settings {
        Some(st) => (st.wins.unwrap_or(0) as u64, points_hundredths(st.fpts, st.fpts_decimal) as u128),
        None => (0, 0),
    }
}

/// The ranking keys of the rosters at the given positions.
pub open spec fn keys_at(rosters: Seq<Roster>, pos: Seq<usize>) -> Seq<(u64, u128)> {
    pos.map_values(|p: usize| standings_key(rosters[p as int]))
}

/// The standings row expected for the roster at position `p`: its
/// owner's name and its own record ("0-0" without settings).
pub open spec fn row_holds(row: StandingRow, users: Seq<User>, rosters: Seq<Roster>, p: usize) -> bool {
    let r = rosters[p as int];
    &&& row.roster == p
    &&& row.name@ == standings_name(users, r)
    &&& row.record@ == roster_record_text(r)
}

/// The league standings: every roster with an owner, most wins first, then
/// most points (a stable sort), each with its name and its own record.
pub fn league_standings(users: &[User], rosters: &[Roster]) -> (rows: Vec<StandingRow>)
    ensures
        exists|order: Seq<usize>| {
            &&& #[trigger] is_ranking(keys_at(rosters@, owned_positions(rosters@)), order)
            &&& rows@.len() == order.len()
            &&& forall|t: int| 0 <= t < rows@.len() ==> row_holds(
                #[trigger] rows@[t],
                users@,
                rosters@,
                owned_positions(rosters@)[order[t] as int],
            )
        },
{
    let mut pos: Vec<usize> = Vec::new();
    let mut keys: Vec<(u64, u128)> = Vec::new();
    for i in 0..rosters.len()
        invariant
            pos@ == owned_positions(rosters@.take(i as int)),
            keys@ == keys_at(rosters@, pos@),
            forall|k: int| 0 <= k < pos@.len() ==> #[trigger] pos@[k] < i,
    {
        assert(rosters@.take(i + 1).drop_last() =~= rosters@.take(i as int));
        assert(rosters@.take(i + 1).last() == rosters@[i as int]);
        if rosters[i].owner_id.is_some() {
            let key: (u64, u128) = match &rosters[i].settings {
                Some(st) => (match st.wins { Some(w) => w as u64, None => 0 }, st.points_for_hundredths()),
                None => (0, 0),
            };
            pos.push(i);
            keys.push(key);
            assert(keys@ =~= keys_at(rosters@, pos@));
        }
    }
    assert(rosters@.take(rosters.len() as int) =~= rosters@);
    let order = rank_desc(&keys);
    let mut rows: Vec<StandingRow> = Vec::new();
    for t in 0..order.len()
        invariant
            order.len() == pos.len(),
            forall|u: int| 0 <= u < order.len() ==> #[trigger] order@[u] < pos.len(),
            forall|k: int| 0 <= k < pos@.len() ==> #[trigger] pos@[k] < rosters.len(),
            rows@.len() == t,
            forall|u: int| 0 <= u < t ==> row_holds(#[trigger] rows@[u], users@, rosters@, pos@[order@[u] as int]),
    {
        let p = pos[order[t]];
        let r = &rosters[p];
        let name = match owner_of(users, r) {
            Some(u) => owner_display(u),
            None => String::from_str("Unknown"),
        };
        let record = match &r.settings {
            Some(st) => st.record(),
            None => {
                let mut z = String::new();
                push_str(&mut z, "0-0");
                z
            },
        };
        rows.push(StandingRow { name, record, roster: p });
    }
    rows
}

/// A past season's final standings, ranked and shown as the current
/// standings are.
pub fn season_standings(users: &[User], rosters: &[Roster]) -> (rows: Vec<StandingRow>)
    ensures
        exists|order: Seq<usize>| {
            &&& #[trigger] is_ranking(keys_at(rosters@, owned_positions(rosters@)), order)
            &&& rows@.len() == order.len()
            &&& forall|t: int| 0 <= t < rows@.len() ==> row_holds(
                #[trigger] rows@[t],
                users@,
                rosters@,
                owned_positions(rosters@)[order[t] as int],
            )
        },
{
    league_standings(users, rosters)
}

// ───────────── Matchups ─────────────

/// The first roster whose name, lower-cased, contains `q`.
pub open spec fn roster_by_name(rosters: Seq<Roster>, names: Map<u32, Seq<char>>, q: Seq<char>) -> Option<int>
    decreases rosters.len(),
{
    if rosters.len() == 0 {
        None
    } else if names.contains_key(rosters[0].roster_id) && has_substring(lowercase(names[rosters[0].roster_id]), q) {
        Some(0)
    } else {
        match roster_by_name(rosters.drop_first(), names, q) {
            Some(i) => Some(i + 1),
            None => None,
        }
    }
}

/// The position of the roster a team name names: the first whose name
/// contains it, ignoring case.
pub fn find_roster_by_name(rosters: &[Roster], names: &HashMap<u32, String>, team_name: &str) -> (r: Option<usize>)
    ensures
        match r {
            Some(i) => roster_by_name(rosters@, text_map(names@), lowercase(team_name@)) == Some(i as int)
                && i < rosters.len(),
            None => roster_by_name(rosters@, text_map(names@), lowercase(team_name@)) is None,
        },
{
    let q = to_lower(team_name);
    let ghost nm = text_map(names@);
    let mut i: usize = 0;
    assert(rosters@.skip(0) =~= rosters@);
    while i < rosters.len()
        invariant
            i <= rosters.len(),
            nm == text_map(names@),
            q@ == lowercase(team_name@),
            roster_by_name(rosters@, nm, q@) == match roster_by_name(rosters@.skip(i as int), nm, q@) {
                Some(j) => Some(j + i),
                None => None,
            },
        decreases rosters.len() - i,
    {
        assert(rosters@.skip(i as int).drop_first() =~= rosters@.skip(i + 1));
        assert(rosters@.skip(i as int)[0] == rosters@[i as int]);
        if let Some(n) = names.get(&rosters[i].roster_id) {
            assert(nm.contains_key(rosters@[i as int].roster_id));
            assert(nm[rosters@[i as int].roster_id] == n@);
            let lower = to_lower(n.as_str());
            if contains(lower.as_str(), q.as_str()) {
                let ghost rest = rosters@.skip(i as int);
                assert(rest.len() > 0);
                assert(nm.contains_key(rest[0].roster_id) && has_substring(lowercase(nm[rest[0].roster_id]), q@));
                assert(roster_by_name(rest, nm, q@) == Some(0int));
                return Some(i);
            }
        }
        i = i + 1;
    }
    assert(rosters@.skip(i as int) =~= Seq::<Roster>::empty());
    None
}

/// A team's place in a week's matchups: its roster and its pairing.
#[derive(Debug)]
pub struct MatchupSlot {
    pub roster_id: u32,
    pub matchup_id: Option<u32>,
}

/// The first slot of roster `rid`.
pub open spec fn slot_of(slots: Seq<MatchupSlot>, rid: u32) -> Option<int>
    decreases slots.len(),
{
    if slots.len() == 0 {
        None
    } else if slots[0].roster_id == rid {
        Some(0)
    } else {
        match slot_of(slots.drop_first(), rid) {
            Some(i) => Some(i + 1),
            None => None,
        }
    }
}

/// The first slot in pairing `mid` of a roster other than `rid`.
pub open spec fn opponent_of(slots: Seq<MatchupSlot>, rid: u32, mid: u32) -> Option<int>
    decreases slots.len(),
{
    if slots.len() == 0 {
        None
    } else if slots[0].matchup_id == Some(mid) && slots[0].roster_id != rid {
        Some(0)
    } else {
        match opponent_of(slots.drop_first(), rid, mid) {
            Some(i) => Some(i + 1),
            None => None,
        }
    }
}

/// The position of the matchup of roster `rid`.
pub fn find_matchup(slots: &Vec<MatchupSlot>, rid: u32) -> (r: Option<usize>)
    ensures
        match r {
            Some(i) => slot_of(slots@, rid) == Some(i as int) && i < slots.len(),
            None => slot_of(slots@, rid) is None,
        },
{
    let mut i: usize = 0;
    assert(slots@.skip(0) =~= slots@);
    while i < slots.len()
        invariant
            i <= slots.len(),
            slot_of(slots@, rid) == match slot_of(slots@.skip(i as int), rid) {
                Some(j) => Some(j + i),
                None => None,
            },
        decreases slots.len() - i,
    {
        assert(slots@.skip(i as int).drop_first() =~= slots@.skip(i + 1));
        assert(slots@.skip(i as int)[0] == slots@[i as int]);
        if slots[i].roster_id == rid {
            return Some(i);
        }
        i = i + 1;
    }
    assert(slots@.skip(i as int) =~= Seq::<MatchupSlot>::empty());
    None
}

/// The position of the opponent of roster `rid` in pairing `mid`.
pub fn find_opponent(slots: &Vec<MatchupSlot>, rid: u32, mid: u32) -> (r: Option<usize>)
    ensures
        match r {
            Some(i) => opponent_of(slots@, rid, mid) == Some(i as int) && i < slots.len(),
            None => opponent_of(slots@, rid, mid) is None,
        },
{
    let mut i: usize = 0;
    assert(slots@.skip(0) =~= slots@);
    while i < slots.len()
        invariant
            i <= slots.len(),
            opponent_of(slots@, rid, mid) == match opponent_of(slots@.skip(i as int), rid, mid) {
                Some(j) => Some(j + i),
                None => None,
            },
        decreases slots.len() - i,
    {
        assert(slots@.skip(i as int).drop_first() =~= slots@.skip(i + 1));
        assert(slots@.skip(i as int)[0] == slots@[i as int]);
        if slots[i].matchup_id == Some(mid) && slots[i].roster_id != rid {
            return Some(i);
        }
        i = i + 1;
    }
    assert(slots@.skip(i as int) =~= Seq::<MatchupSlot>::empty());
    None
}

/// "No matchup found for this team in week N."
pub fn no_matchup_message(week: u32) -> (r: String)
    ensures
        r@ == "No matchup found for this team in week "@ + decimal(week as nat) + "."@,
{
    let mut r = String::new();
    push_str(&mut r, "No matchup found for this team in week ");
    push_decimal(&mut r, week as u64);
    push_str(&mut r, ".");
    r
}

/// "No matchup assigned for week N."
pub fn unassigned_matchup_message(week: u32) -> (r: String)
    ensures
        r@ == "No matchup assigned for week "@ + decimal(week as nat) + "."@,
{
    let mut r = String::new();
    push_str(&mut r, "No matchup assigned for week ");
    push_decimal(&mut r, week as u64);
    push_str(&mut r, ".");
    r
}

/// "No team found matching \"name\"."
pub fn no_team_message(team_name: &str) -> (r: String)
    ensures
        r@ == "No team found matching \""@ + team_name@ + "\"."@,
{
    let mut r = String::new();
    push_str(&mut r, "No team found matching \"");
    push_str(&mut r, team_name);
    push_str(&mut r, "\".");
    r
}

// ───────────── Waiver wire ─────────────

/// A position shown on the waiver wire, and the requested one when a
/// position is given (ignoring ASCII case).
pub open spec fn waiver_position(pos: Seq<char>, filter: Option<Seq<char>>) -> bool {
    &&& (pos == "QB"@ || pos == "RB"@ || pos == "WR"@ || pos == "TE"@ || pos == "K"@ || pos == "DEF"@)
    &&& match filter {
        Some(f) => eq_ignore_ascii_case(pos, f),
        None => true,
    }
}

/// Whether a player at `pos` may be listed for the position filter.
pub fn waiver_position_ok(pos: &str, filter: Option<&str>) -> (b: bool)
    ensures
        b == waiver_position(pos@, match filter { Some(f) => Some(f@), None => None }),
{
    let known = same_text(pos, "QB") || same_text(pos, "RB") || same_text(pos, "WR")
        || same_text(pos, "TE") || same_text(pos, "K") || same_text(pos, "DEF");
    if !known {
        return false;
    }
    match filter {
        Some(f) => eq_ignore_case(pos, f),
        None => true,
    }
}

/// Whether any roster holds player `pid`.
pub open spec fn rostered(rosters: Seq<Roster>, pid: Seq<char>) -> bool {
    exists|i: int| 0 <= i < rosters.len() && id_list(#[trigger] rosters[i].players).contains(pid)
}

/// Whether any roster holds player `pid`.
pub fn is_rostered(rosters: &[Roster], pid: &str) -> (b: bool)
    ensures
        b == rostered(rosters@, pid@),
{
    for i in 0..rosters.len()
        invariant
            forall|k: int| 0 <= k < i ==> !id_list(#[trigger] rosters@[k].players).contains(pid@),
    {
        let held = match &rosters[i].players {
            Some(ps) => holds_id(ps, pid),
            None => false,
        };
        if held {
            return true;
        }
    }
    false
}

/// "No available players found[ at POS]."
pub fn no_available_message(position: Option<&str>) -> (r: String)
    ensures
        r@ == "No available players found"@ + match position {
            Some(p) => " at "@ + p@,
            None => Seq::empty(),
        } + "."@,
{
    let mut r = String::new();
    push_str(&mut r, "No available players found");
    if let Some(p) = position {
        push_str(&mut r, " at ");
        push_str(&mut r, p);
    }
    push_str(&mut r, ".");
    r
}

// ───────────── Team rosters ─────────────

/// The team name of a user, empty when there is none.
pub open spec fn team_of(u: User) -> Seq<char> {
    match u.metadata {
        Some(m) => text_or(m.team_name, Seq::empty()),
        None => Seq::empty(),
    }
}

/// The lower-cased display name or team name of `u` contains `q`.
pub open spec fn user_matches(u: User, q: Seq<char>) -> bool {
    ||| has_substring(lowercase(text_or(u.display_name, Seq::empty())), q)
    ||| has_substring(lowercase(team_of(u)), q)
}

/// The user owning a roster.
pub open spec fn roster_owner(users: Seq<User>, r: Roster) -> Option<User> {
    match r.owner_id {
        Some(o) => user_by_id(users, o@),
        None => None,
    }
}

/// A roster whose owner matches `q`.
pub open spec fn roster_matches(users: Seq<User>, r: Roster, q: Seq<char>) -> bool {
    match roster_owner(users, r) {
        Some(u) => user_matches(u, q),
        None => false,
    }
}

/// The first roster, in order, whose owner matches `q`.
pub open spec fn first_roster_matching(users: Seq<User>, rosters: Seq<Roster>, q: Seq<char>) -> Option<Roster>
    decreases rosters.len(),
{
    if rosters.len() == 0 {
        None
    } else if roster_matches(users, rosters[0], q) {
        Some(rosters[0])
    } else {
        first_roster_matching(users, rosters.drop_first(), q)
    }
}

/// "  Name (POS, TEAM)" for a roster listing.
pub open spec fn roster_player_line(p: Player) -> Seq<char> {
    "  "@ + crate::sleeper::full_name_text(p) + " ("@ + text_or(p.position, "??"@) + ", "@ + text_or(
        p.team,
        "FA"@,
    ) + ")"@
}

/// The starter ids without empty slots ("0").
pub open spec fn kept_starters(ids: Seq<Seq<char>>) -> Seq<Seq<char>>
    decreases ids.len(),
{
    if ids.len() == 0 {
        Seq::empty()
    } else if ids.last() == "0"@ {
        kept_starters(ids.drop_last())
    } else {
        kept_starters(ids.drop_last()).push(ids.last())
    }
}

/// The listing line of one starter.
pub open spec fn starter_line(id: Seq<char>, players: PlayerMap) -> Seq<char> {
    match players.lookup(id) {
        Some(p) => roster_player_line(p),
        None => "  Unknown ("@ + id + ")"@,
    }
}

/// The listing lines of the starters.
pub open spec fn starter_lines(ids: Seq<Seq<char>>, players: PlayerMap) -> Seq<Seq<char>> {
    ids.map_values(|id: Seq<char>| starter_line(id, players))
}

/// The listing lines of the bench: known players that are not starters.
pub open spec fn bench_lines(ids: Seq<Seq<char>>, starters: Seq<Seq<char>>, players: PlayerMap) -> Seq<Seq<char>>
    decreases ids.len(),
{
    if ids.len() == 0 {
        Seq::empty()
    } else {
        let rest = bench_lines(ids.drop_last(), starters, players);
        if starters.contains(ids.last()) {
            rest
        } else {
            match players.lookup(ids.last()) {
                Some(p) => rest.push(roster_player_line(p)),
                None => rest,
            }
        }
    }
}

/// "\nTitle:\n" and the lines, or nothing when there are no lines.
pub open spec fn section_text(title: Seq<char>, lines: Seq<Seq<char>>) -> Seq<char> {
    if lines.len() == 0 {
        Seq::empty()
    } else {
        "\n"@ + title + ":\n"@ + lines_text(lines)
    }
}

/// The ids of an optional id list.
pub open spec fn id_list(o: Option<Vec<String>>) -> Seq<Seq<char>> {
    match o {
        Some(v) => views(v@),
        None => Seq::empty(),
    }
}

/// The roster report of the team that `team_name` names.
pub open spec fn team_roster_text(
    users: Seq<User>,
    rosters: Seq<Roster>,
    players: PlayerMap,
    team_name: Seq<char>,
) -> Seq<char> {
    match first_roster_matching(users, rosters, lowercase(team_name)) {
        None => "No team found matching \""@ + team_name + "\"."@,
        Some(r) => {
            let header = match roster_owner(users, r) {
                Some(u) => owner_label(u),
                None => "Unknown"@,
            };
            let starters = kept_starters(id_list(r.starters));
            header + " ("@ + roster_record_text(r) + ")\n"@
                + section_text("Starters"@, starter_lines(starters, players))
                + section_text("Bench"@, bench_lines(id_list(r.players), starters, players))
        },
    }
}

/// The user owning a roster, looked up.
fn owner_of<'a>(users: &'a [User], r: &Roster) -> (u: Option<&'a User>)
    ensures
        match u {
            Some(x) => roster_owner(users@, *r) == Some(*x),
            None => roster_owner(users@, *r) is None,
        },
{
    match &r.owner_id {
        Some(o) => find_user(users, o.as_str()),
        None => None,
    }
}

/// Whether the owner of `r` matches the lower-cased query.
fn roster_matches_query(users: &[User], r: &Roster, q: &str) -> (b: bool)
    ensures
        b == roster_matches(users@, *r, q@),
{
    proof {
        reveal_strlit("");
    }
    match owner_of(users, r) {
        Some(u) => {
            let display = to_lower(str_or(&u.display_name, ""));
            let team: &str = match &u.metadata {
                Some(m) => str_or(&m.team_name, ""),
                None => "",
            };
            let team_lower = to_lower(team);
            assert(""@ =~= Seq::<char>::empty());
            assert(team@ == team_of(*u));
            contains(display.as_str(), q) || contains(team_lower.as_str(), q)
        },
        None => false,
    }
}

/// "  Name (POS, TEAM)".
fn player_line(p: &Player) -> (r: String)
    ensures
        r@ == roster_player_line(*p),
{
    let mut r = String::new();
    push_str(&mut r, "  ");
    let name = p.full_name();
    push_str(&mut r, name.as_str());
    push_str(&mut r, " (");
    push_str(&mut r, str_or(&p.position, "??"));
    push_str(&mut r, ", ");
    push_str(&mut r, str_or(&p.team, "FA"));
    push_str(&mut r, ")");
    r
}

/// Whether `ids` holds `id`.
fn holds_id(ids: &Vec<String>, id: &str) -> (b: bool)
    ensures
        b == views(ids@).contains(id@),
{
    let mut i: usize = 0;
    while i < ids.len()
        invariant
            i <= ids.len(),
            forall|k: int| 0 <= k < i ==> ids@[k]@ != id@,
        decreases ids.len() - i,
    {
        if same_text(ids[i].as_str(), id) {
            assert(views(ids@)[i as int] == id@);
            return true;
        }
        i = i + 1;
    }
    assert forall|k: int| 0 <= k < views(ids@).len() implies views(ids@)[k] != id@ by {
        assert(views(ids@)[k] == ids@[k]@);
    }
    false
}

/// The roster report of a team: the first roster whose owner's display
/// name or team name contains `team_name` (ignoring case), with its record,
/// its starters and its bench.
pub fn team_roster_report(
    users: &[User],
    rosters: &[Roster],
    players: &PlayerMap,
    team_name: &str,
) -> (r: String)
    ensures
        r@ == team_roster_text(users@, rosters@, *players, team_name@),
{
    let q = to_lower(team_name);
    let mut i: usize = 0;
    assert(rosters@.skip(0) =~= rosters@);
    while i < rosters.len()
        invariant
            i <= rosters.len(),
            first_roster_matching(users@, rosters@, q@) == first_roster_matching(
                users@,
                rosters@.skip(i as int),
                q@,
            ),
        ensures
            i <= rosters.len(),
            first_roster_matching(users@, rosters@, q@) == first_roster_matching(
                users@,
                rosters@.skip(i as int),
                q@,
            ),
            i < rosters.len() ==> roster_matches(users@, rosters@[i as int], q@),
        decreases rosters.len() - i,
    {
        assert(rosters@.skip(i as int).drop_first() =~= rosters@.skip(i + 1));
        if roster_matches_query(users, &rosters[i], q.as_str()) {
            break;
        }
        i = i + 1;
    }
    if i == rosters.len() {
        let mut r = String::new();
        push_str(&mut r, "No team found matching \"");
        push_str(&mut r, team_name);
        push_str(&mut r, "\".");
        return r;
    }
    let roster = &rosters[i];
    assert(rosters@.skip(i as int)[0] == *roster);
    assert(first_roster_matching(users@, rosters@, q@) == Some(*roster));
    let mut r = match owner_of(users, roster) {
        Some(u) => owner_display(u),
        None => String::from_str("Unknown"),
    };
    push_str(&mut r, " (");
    let record = match &roster.settings {
        Some(s) => s.record(),
        None => String::from_str("0-0"),
    };
    push_str(&mut r, record.as_str());
    push_str(&mut r, ")\n");
    let ghost head = r@;
    // starters, without empty slots
    let mut starters: Vec<String> = Vec::new();
    let mut starter_text: Vec<String> = Vec::new();
    if let Some(ids) = &roster.starters {
        for k in 0..ids.len()
            invariant
                views(starters@) == kept_starters(views(ids@.take(k as int))),
                views(starter_text@) == starter_lines(views(starters@), *players),
        {
            assert(views(ids@.take(k + 1)).drop_last() =~= views(ids@.take(k as int)));
            assert(views(ids@.take(k + 1)).last() == ids@[k as int]@);
            if !same_text(ids[k].as_str(), "0") {
                let line = match players.get(ids[k].as_str()) {
                    Some(p) => player_line(p),
                    None => {
                        let mut l = String::new();
                        push_str(&mut l, "  Unknown (");
                        push_str(&mut l, ids[k].as_str());
                        push_str(&mut l, ")");
                        l
                    },
                };
                let ghost s0 = views(starters@);
                let ghost t0 = views(starter_text@);
                starters.push(ids[k].clone());
                starter_text.push(line);
                assert(views(starters@) =~= s0.push(ids@[k as int]@));
                assert(views(starter_text@) =~= t0.push(line@));
                assert(starter_lines(views(starters@), *players) =~= starter_lines(s0, *players).push(
                    line@,
                ));
            }
        }
        assert(ids@.take(ids.len() as int) =~= ids@);
    } else {
        assert(views(starters@) =~= Seq::<Seq<char>>::empty());
        assert(views(starter_text@) =~= Seq::<Seq<char>>::empty());
    }
    assert(views(starters@) == kept_starters(id_list(roster.starters)));
    if starter_text.len() > 0 {
        push_str(&mut r, "\n");
        push_str(&mut r, "Starters");
        push_str(&mut r, ":\n");
        push_lines(&mut r, &starter_text);
    }
    let ghost with_starters = r@;
    assert(with_starters =~= head + section_text("Starters"@, views(starter_text@)));
    // bench: known players that are not starters
    let mut bench: Vec<String> = Vec::new();
    if let Some(ids) = &roster.players {
        for k in 0..ids.len()
            invariant
                views(bench@) == bench_lines(views(ids@.take(k as int)), views(starters@), *players),
        {
            assert(views(ids@.take(k + 1)).drop_last() =~= views(ids@.take(k as int)));
            assert(views(ids@.take(k + 1)).last() == ids@[k as int]@);
            if !holds_id(&starters, ids[k].as_str()) {
                if let Some(p) = players.get(ids[k].as_str()) {
                    let line = player_line(p);
                    let ghost b0 = views(bench@);
                    bench.push(line);
                    assert(views(bench@) =~= b0.push(line@));
                }
            }
        }
        assert(ids@.take(ids.len() as int) =~= ids@);
    } else {
        assert(views(bench@) =~= Seq::<Seq<char>>::empty());
    }
    assert(views(bench@) == bench_lines(id_list(roster.players), views(starters@), *players));
    if bench.len() > 0 {
        push_str(&mut r, "\n");
        push_str(&mut r, "Bench");
        push_str(&mut r, ":\n");
        push_lines(&mut r, &bench);
    }
    assert(r@ =~= with_starters + section_text("Bench"@, views(bench@)));
    r
}

// ───────────── Player info ─────────────

/// The lower-cased full name of a player.
pub open spec fn lower_name(p: Player) -> Seq<char> {
    lowercase(full_name_text(p))
}

/// A player whose lower-cased full name contains the query or is
/// contained in it.
pub open spec fn name_matches(p: Player, q: Seq<char>) -> bool {
    has_substring(lower_name(p), q) || has_substring(q, lower_name(p))
}

/// The position of the first entry whose lower-cased full name equals the
/// query.
pub open spec fn first_exact(l: Seq<(Seq<char>, Player)>, q: Seq<char>) -> Option<int>
    decreases l.len(),
{
    if l.len() == 0 {
        None
    } else if lower_name(l[0].1) == q {
        Some(0)
    } else {
        match first_exact(l.drop_first(), q) {
            Some(i) => Some(i + 1),
            None => None,
        }
    }
}

/// The position of the matching entry with the shortest full name (the
/// first of them when several are as short).
pub open spec fn shortest_match(l: Seq<(Seq<char>, Player)>, q: Seq<char>) -> Option<int>
    decreases l.len(),
{
    if l.len() == 0 {
        None
    } else {
        let rest = shortest_match(l.drop_last(), q);
        if name_matches(l.last().1, q) {
            match rest {
                Some(j) => if full_name_text(l.last().1).len() < full_name_text(l[j].1).len() {
                    Some(l.len() - 1)
                } else {
                    Some(j)
                },
                None => Some(l.len() - 1),
            }
        } else {
            rest
        }
    }
}

/// The player a query names: the first whose lower-cased full name equals
/// the lower-cased query, else the matching one with the shortest name.
pub open spec fn chosen_player(l: Seq<(Seq<char>, Player)>, q: Seq<char>) -> Option<int> {
    match first_exact(l, q) {
        Some(i) => Some(i),
        None => shortest_match(l, q),
    }
}

/// The first entry whose lower-cased name equals `q`, by position.
fn scan_exact(players: &PlayerMap, q: &str) -> (r: Option<usize>)
    ensures
        match r {
            Some(i) => first_exact(players.listing(), q@) == Some(i as int) && i < players.listing().len(),
            None => first_exact(players.listing(), q@) is None,
        },
{
    let ghost l = players.listing();
    let n = players.len();
    let mut i: usize = 0;
    assert(l.skip(0) =~= l);
    while i < n
        invariant
            n == l.len(),
            l == players.listing(),
            i <= n,
            first_exact(l, q@) == match first_exact(l.skip(i as int), q@) {
                Some(j) => Some(j + i),
                None => None,
            },
        decreases n - i,
    {
        assert(l.skip(i as int).drop_first() =~= l.skip(i + 1));
        let (_, p) = players.entry(i);
        assert(l.skip(i as int)[0].1 == *p);
        let name = to_lower(p.full_name().as_str());
        if same_text(name.as_str(), q) {
            return Some(i);
        }
        i = i + 1;
    }
    assert(l.skip(i as int) =~= Seq::<(Seq<char>, Player)>::empty());
    None
}

/// The matching entry with the shortest full name, by position.
fn scan_shortest(players: &PlayerMap, q: &str) -> (r: Option<usize>)
    ensures
        match r {
            Some(i) => shortest_match(players.listing(), q@) == Some(i as int) && i < players.listing().len(),
            None => shortest_match(players.listing(), q@) is None,
        },
{
    let ghost l = players.listing();
    let n = players.len();
    let mut best: Option<usize> = None;
    let mut best_len: usize = 0;
    for i in 0..n
        invariant
            n == l.len(),
            l == players.listing(),
            match best {
                Some(j) => shortest_match(l.take(i as int), q@) == Some(j as int) && j < i
                    && best_len == full_name_text(l[j as int].1).len(),
                None => shortest_match(l.take(i as int), q@) is None,
            },
    {
        assert(l.take(i + 1).drop_last() =~= l.take(i as int));
        let (_, p) = players.entry(i);
        assert(l.take(i + 1).last() == l[i as int]);
        let full = p.full_name();
        let name = to_lower(full.as_str());
        if contains(name.as_str(), q) || contains(q, name.as_str()) {
            let len = full.as_str().unicode_len();
            match best {
                Some(j) => {
                    assert(l.take(i + 1)[j as int] == l[j as int]);
                    if len < best_len {
                        best = Some(i);
                        best_len = len;
                    }
                },
                None => {
                    best = Some(i);
                    best_len = len;
                },
            }
        }
    }
    assert(l.take(n as int) =~= l);
    best
}

/// The position of the player that `player_name` names (ignoring case):
/// an exact full-name match first, else the matching player with the
/// shortest full name.
pub fn find_player(players: &PlayerMap, player_name: &str) -> (r: Option<usize>)
    ensures
        match r {
            Some(i) => chosen_player(players.listing(), lowercase(player_name@)) == Some(i as int)
                && i < players.listing().len(),
            None => chosen_player(players.listing(), lowercase(player_name@)) is None,
        },
{
    let q = to_lower(player_name);
    match scan_exact(players, q.as_str()) {
        Some(i) => Some(i),
        None => scan_shortest(players, q.as_str()),
    }
}

/// The first roster holding player `id`.
pub open spec fn holding_roster(rosters: Seq<Roster>, id: Seq<char>) -> Option<Roster>
    decreases rosters.len(),
{
    if rosters.len() == 0 {
        None
    } else if id_list(rosters[0].players).contains(id) {
        Some(rosters[0])
    } else {
        holding_roster(rosters.drop_first(), id)
    }
}

/// A season line of a player's history: (season, summary).
pub open spec fn season_line(e: (Seq<char>, Seq<char>)) -> Seq<char> {
    e.0 + " season: "@ + e.1
}

/// The player info answer: header, context summary, the season lines
/// (given most recent first; empty summaries left out), the projection,
/// and who rosters the player.
pub open spec fn player_info_text(
    id: Seq<char>,
    p: Player,
    seasons: Seq<(Seq<char>, Seq<char>)>,
    projection: Option<Seq<char>>,
    rosters: Seq<Roster>,
    names: Map<u32, Seq<char>>,
) -> Seq<char> {
    let summary = crate::text::joined(crate::sleeper::context_parts(p), ", "@);
    let header = full_name_text(p) + " ("@ + text_or(p.position, "??"@) + ", "@ + text_or(p.team, "FA"@)
        + ")\n"@;
    let context = if summary.len() > 0 { summary + "\n"@ } else { Seq::empty() };
    let history = lines_text(season_lines(seasons));
    let proj = match projection {
        Some(s) => if s.len() > 0 { "Projected: "@ + s + "\n"@ } else { Seq::empty() },
        None => Seq::empty(),
    };
    let owner = match holding_roster(rosters, id) {
        Some(r) => "Rostered by: "@ + name_or(names, r.roster_id, "Unknown"@) + "\n"@,
        None => "Status: Free agent (unrostered)\n"@,
    };
    header + context + history + proj + owner
}

/// The lines of the seasons with a non-empty summary, in order.
pub open spec fn season_lines(seasons: Seq<(Seq<char>, Seq<char>)>) -> Seq<Seq<char>>
    decreases seasons.len(),
{
    if seasons.len() == 0 {
        Seq::empty()
    } else if seasons.last().1.len() > 0 {
        season_lines(seasons.drop_last()).push(season_line(seasons.last()))
    } else {
        season_lines(seasons.drop_last())
    }
}

/// The season/summary pairs as plain values.
pub open spec fn pair_views(v: Seq<(String, String)>) -> Seq<(Seq<char>, Seq<char>)> {
    v.map_values(|e: (String, String)| (e.0@, e.1@))
}

/// The header and context lines of a player.
fn player_heading(p: &Player) -> (r: String)
    ensures
        r@ == {
            let summary = crate::text::joined(crate::sleeper::context_parts(*p), ", "@);
            full_name_text(*p) + " ("@ + text_or(p.position, "??"@) + ", "@ + text_or(p.team, "FA"@)
                + ")\n"@ + if summary.len() > 0 { summary + "\n"@ } else { Seq::empty() }
        },
{
    let mut r = p.full_name();
    push_str(&mut r, " (");
    push_str(&mut r, str_or(&p.position, "??"));
    push_str(&mut r, ", ");
    push_str(&mut r, str_or(&p.team, "FA"));
    push_str(&mut r, ")\n");
    let summary = p.context_summary();
    if summary.unicode_len() > 0 {
        push_str(&mut r, summary.as_str());
        push_str(&mut r, "\n");
    }
    r
}

/// The season lines of a player's history.
fn history_lines(seasons: &Vec<(String, String)>) -> (lines: Vec<String>)
    ensures
        views(lines@) == season_lines(pair_views(seasons@)),
{
    let mut lines: Vec<String> = Vec::new();
    for i in 0..seasons.len()
        invariant
            views(lines@) == season_lines(pair_views(seasons@.take(i as int))),
    {
        assert(pair_views(seasons@.take(i + 1)).drop_last() =~= pair_views(seasons@.take(i as int)));
        assert(pair_views(seasons@.take(i + 1)).last() == (seasons@[i as int].0@, seasons@[i as int].1@));
        if seasons[i].1.unicode_len() > 0 {
            let mut l = seasons[i].0.clone();
            push_str(&mut l, " season: ");
            push_str(&mut l, seasons[i].1.as_str());
            let ghost before = views(lines@);
            lines.push(l);
            assert(views(lines@) =~= before.push(l@));
        }
    }
    assert(seasons@.take(seasons.len() as int) =~= seasons@);
    lines
}

/// "Rostered by: Team" for the first roster holding `id`, else the free
/// agent line.
fn ownership_line(id: &str, rosters: &[Roster], names: &HashMap<u32, String>) -> (r: String)
    ensures
        r@ == match holding_roster(rosters@, id@) {
            Some(ro) => "Rostered by: "@ + name_or(text_map(names@), ro.roster_id, "Unknown"@) + "\n"@,
            None => "Status: Free agent (unrostered)\n"@,
        },
{
    let mut k: usize = 0;
    assert(rosters@.skip(0) =~= rosters@);
    while k < rosters.len()
        invariant
            k <= rosters.len(),
            holding_roster(rosters@, id@) == holding_roster(rosters@.skip(k as int), id@),
        ensures
            k <= rosters.len(),
            holding_roster(rosters@, id@) == holding_roster(rosters@.skip(k as int), id@),
            k < rosters.len() ==> id_list(rosters@[k as int].players).contains(id@),
        decreases rosters.len() - k,
    {
        assert(rosters@.skip(k as int).drop_first() =~= rosters@.skip(k + 1));
        let held = match &rosters[k].players {
            Some(ps) => holds_id(ps, id),
            None => false,
        };
        if held {
            break;
        }
        k = k + 1;
    }
    let mut r = String::new();
    if k < rosters.len() {
        assert(rosters@.skip(k as int)[0] == rosters@[k as int]);
        push_str(&mut r, "Rostered by: ");
        let n = roster_name_or(names, rosters[k].roster_id, "Unknown");
        push_str(&mut r, n.as_str());
        push_str(&mut r, "\n");
    } else {
        assert(rosters@.skip(k as int) =~= Seq::<Roster>::empty());
        push_str(&mut r, "Status: Free agent (unrostered)\n");
    }
    r
}

/// The player info answer for player `id`, given the summaries of its past
/// seasons (most recent first) and of its projection.
pub fn player_info_report(
    id: &str,
    p: &Player,
    seasons: &Vec<(String, String)>,
    projection: Option<&str>,
    rosters: &[Roster],
    names: &HashMap<u32, String>,
) -> (r: String)
    ensures
        r@ == player_info_text(
            id@,
            *p,
            pair_views(seasons@),
            match projection { Some(s) => Some(s@), None => None },
            rosters@,
            text_map(names@),
        ),
{
    let mut r = player_heading(p);
    let lines = history_lines(seasons);
    push_lines(&mut r, &lines);
    if let Some(s) = projection {
        if s.unicode_len() > 0 {
            push_str(&mut r, "Projected: ");
            push_str(&mut r, s);
            push_str(&mut r, "\n");
        }
    }
    let owner = ownership_line(id, rosters, names);
    push_str(&mut r, owner.as_str());
    r
}

/// The answer when no player matches.
pub open spec fn no_player_text(player_name: Seq<char>) -> Seq<char> {
    "No player found matching \""@ + player_name + "\"."@
}

/// The answer when no player matches `player_name`.
pub fn no_player_message(player_name: &str) -> (r: String)
    ensures
        r@ == no_player_text(player_name@),
{
    let mut r = String::new();
    push_str(&mut r, "No player found matching \"");
    push_str(&mut r, player_name);
    push_str(&mut r, "\".");
    r
}

// ───────────── Recent transactions ─────────────

/// How far back recent transactions reach: fourteen days, in milliseconds.
pub const RECENT_TRANSACTION_WINDOW_MS: u64 = 1209600000;

/// The name of roster `id`, or `default`.
pub open spec fn name_or(names: Map<u32, Seq<char>>, id: u32, default: Seq<char>) -> Seq<char> {
    if names.contains_key(id) {
        names[id]
    } else {
        default
    }
}

/// The names of the rosters that have one, in order.
pub open spec fn named_teams(ids: Seq<u32>, names: Map<u32, Seq<char>>) -> Seq<Seq<char>>
    decreases ids.len(),
{
    if ids.len() == 0 {
        Seq::empty()
    } else if names.contains_key(ids.last()) {
        named_teams(ids.drop_last(), names).push(names[ids.last()])
    } else {
        named_teams(ids.drop_last(), names)
    }
}

/// "Name → Team" for one traded player (the id when the player is unknown,
/// "?" when the team is).
pub open spec fn traded_item(a: (String, u32), names: Map<u32, Seq<char>>, players: PlayerMap) -> Seq<char> {
    let who = match players.lookup(a.0@) {
        Some(p) => full_name_text(p),
        None => a.0@,
    };
    who + " → "@ + name_or(names, a.1, "?"@)
}

/// The full names of the known players among `ids`, in order.
pub open spec fn known_names(ids: Seq<(String, u32)>, players: PlayerMap) -> Seq<Seq<char>>
    decreases ids.len(),
{
    if ids.len() == 0 {
        Seq::empty()
    } else {
        match players.lookup(ids.last().0@) {
            Some(p) => known_names(ids.drop_last(), players).push(full_name_text(p)),
            None => known_names(ids.drop_last(), players),
        }
    }
}

/// The listed (player, roster) pairs of an optional list.
pub open spec fn pair_list(o: Option<Vec<(String, u32)>>) -> Seq<(String, u32)> {
    match o {
        Some(v) => v@,
        None => Seq::empty(),
    }
}

/// The type of a transaction, "unknown" when missing.
pub open spec fn tx_type_text(tx: Transaction) -> Seq<char> {
    text_or(tx.tx_type, "unknown"@)
}

/// The listed rosters of a transaction.
pub open spec fn tx_rosters(tx: Transaction) -> Seq<u32> {
    match tx.roster_ids {
        Some(ids) => ids@,
        None => Seq::empty(),
    }
}

/// " " + label + the names joined, or nothing when there are none.
pub open spec fn names_clause(label: Seq<char>, names: Seq<Seq<char>>) -> Seq<char> {
    if names.len() > 0 {
        label + joined(names, ", "@)
    } else {
        Seq::empty()
    }
}

/// The report line of one transaction: trades list both sides and what
/// moved, waiver and free-agent moves list adds and drops, other types
/// give no line.
pub open spec fn tx_line(tx: Transaction, names: Map<u32, Seq<char>>, players: PlayerMap) -> Seq<char> {
    let kind = tx_type_text(tx);
    let ids = tx_rosters(tx);
    if kind == "trade"@ {
        let items = pair_list(tx.adds).map_values(|a: (String, u32)| traded_item(a, names, players));
        let what = if items.len() > 0 {
            " ("@ + joined(items, ", "@) + ")"@
        } else {
            Seq::empty()
        };
        "  "@ + "Trade: "@ + joined(named_teams(ids, names), " and "@) + " completed a trade"@
            + what + "\n"@
    } else if kind == "waiver"@ || kind == "free_agent"@ {
        let team = if ids.len() > 0 { name_or(names, ids[0], "Unknown"@) } else { "Unknown"@ };
        "  "@ + team + names_clause(" added "@, known_names(pair_list(tx.adds), players))
            + names_clause(" dropped "@, known_names(pair_list(tx.drops), players)) + "\n"@
    } else {
        Seq::empty()
    }
}

/// A transaction inside the window and of the requested type (ignoring
/// ASCII case; a missing type reads "unknown").
pub open spec fn tx_selected(tx: Transaction, filter: Option<Seq<char>>, cutoff: u64) -> bool {
    &&& tx.created.unwrap_or(0) >= cutoff
    &&& match filter {
        Some(f) => eq_ignore_ascii_case(tx_type_text(tx), f),
        None => true,
    }
}

/// The number of transactions shown and their lines, scanning in order
/// and stopping once `limit` are shown.
pub open spec fn tx_scan(
    txs: Seq<Transaction>,
    filter: Option<Seq<char>>,
    cutoff: u64,
    limit: u32,
    names: Map<u32, Seq<char>>,
    players: PlayerMap,
) -> (nat, Seq<char>)
    decreases txs.len(),
{
    if txs.len() == 0 {
        (0, Seq::empty())
    } else {
        let (n, t) = tx_scan(txs.drop_last(), filter, cutoff, limit, names, players);
        if n >= limit || !tx_selected(txs.last(), filter, cutoff) {
            (n, t)
        } else {
            (n + 1, t + tx_line(txs.last(), names, players))
        }
    }
}

/// The report of the transactions of the last fourteen days before
/// `now_ms`, at most `limit` of them.
pub open spec fn recent_transactions_text(
    txs: Seq<Transaction>,
    filter: Option<Seq<char>>,
    limit: u32,
    now_ms: u64,
    names: Map<u32, Seq<char>>,
    players: PlayerMap,
) -> Seq<char> {
    let cutoff = if now_ms >= RECENT_TRANSACTION_WINDOW_MS {
        (now_ms - RECENT_TRANSACTION_WINDOW_MS) as u64
    } else {
        0
    };
    let (n, t) = tx_scan(txs, filter, cutoff, limit, names, players);
    if n == 0 {
        "No recent transactions found"@ + match filter {
            Some(f) => " of type \""@ + f + "\""@,
            None => Seq::empty(),
        } + "."@
    } else {
        "Recent transactions:\n"@ + t
    }
}

/// The name of roster `id`, or `default`.
fn roster_name_or(names: &HashMap<u32, String>, id: u32, default: &str) -> (r: String)
    ensures
        r@ == name_or(text_map(names@), id, default@),
{
    match names.get(&id) {
        Some(n) => n.clone(),
        None => String::from_str(default),
    }
}

/// The full names of the known players among the pairs.
fn known_player_names(ids: &Vec<(String, u32)>, players: &PlayerMap) -> (v: Vec<String>)
    ensures
        views(v@) == known_names(ids@, *players),
{
    let mut v: Vec<String> = Vec::new();
    for i in 0..ids.len()
        invariant
            views(v@) == known_names(ids@.take(i as int), *players),
    {
        assert(ids@.take(i + 1).drop_last() =~= ids@.take(i as int));
        assert(ids@.take(i + 1).last() == ids@[i as int]);
        if let Some(p) = players.get(ids[i].0.as_str()) {
            let n = p.full_name();
            let ghost before = views(v@);
            v.push(n);
            assert(views(v@) =~= before.push(n@));
        }
    }
    assert(ids@.take(ids.len() as int) =~= ids@);
    v
}

/// Appends `label` and the names joined with ", ", when there are names.
fn push_names_clause(s: &mut String, label: &str, names: &Vec<String>)
    ensures
        final(s)@ == old(s)@ + names_clause(label@, views(names@)),
{
    if names.len() > 0 {
        push_str(s, label);
        let j = join(names.as_slice(), ", ");
        push_str(s, j.as_str());
    }
}

/// The report line of one transaction.
fn transaction_line(tx: &Transaction, names: &HashMap<u32, String>, players: &PlayerMap) -> (r: String)
    ensures
        r@ == tx_line(*tx, text_map(names@), *players),
{
    let ghost nm = text_map(names@);
    let kind = str_or(&tx.tx_type, "unknown");
    let empty_ids: Vec<u32> = Vec::new();
    let ids: &Vec<u32> = match &tx.roster_ids {
        Some(v) => v,
        None => &empty_ids,
    };
    assert(ids@ == tx_rosters(*tx));
    let mut r = String::new();
    if same_text(kind, "trade") {
        let mut teams: Vec<String> = Vec::new();
        for i in 0..ids.len()
            invariant
                views(teams@) == named_teams(ids@.take(i as int), nm),
                nm == text_map(names@),
        {
            assert(ids@.take(i + 1).drop_last() =~= ids@.take(i as int));
            assert(ids@.take(i + 1).last() == ids@[i as int]);
            if let Some(n) = names.get(&ids[i]) {
                let ghost before = views(teams@);
                teams.push(n.clone());
                assert(views(teams@) =~= before.push(nm[ids@[i as int]]));
            }
        }
        assert(ids@.take(ids.len() as int) =~= ids@);
        push_str(&mut r, "  ");
        push_str(&mut r, "Trade: ");
        let t = join(teams.as_slice(), " and ");
        push_str(&mut r, t.as_str());
        push_str(&mut r, " completed a trade");
        let mut items: Vec<String> = Vec::new();
        let ghost adds = pair_list(tx.adds);
        if let Some(a) = &tx.adds {
            for i in 0..a.len()
                invariant
                    views(items@) == a@.take(i as int).map_values(
                        |x: (String, u32)| traded_item(x, nm, *players),
                    ),
                    nm == text_map(names@),
            {
                let mut item = match players.get(a[i].0.as_str()) {
                    Some(p) => p.full_name(),
                    None => a[i].0.clone(),
                };
                push_str(&mut item, " → ");
                let to = roster_name_or(names, a[i].1, "?");
                push_str(&mut item, to.as_str());
                let ghost before = views(items@);
                items.push(item);
                assert(views(items@) =~= before.push(item@));
                assert(a@.take(i + 1).map_values(|x: (String, u32)| traded_item(x, nm, *players))
                    =~= a@.take(i as int).map_values(|x: (String, u32)| traded_item(x, nm, *players)).push(
                    traded_item(a@[i as int], nm, *players),
                ));
            }
            assert(a@.take(a.len() as int) =~= a@);
        } else {
            assert(views(items@) =~= adds.map_values(|x: (String, u32)| traded_item(x, nm, *players)));
        }
        if items.len() > 0 {
            push_str(&mut r, " (");
            let j = join(items.as_slice(), ", ");
            push_str(&mut r, j.as_str());
            push_str(&mut r, ")");
        }
        push_str(&mut r, "\n");
    } else if same_text(kind, "waiver") || same_text(kind, "free_agent") {
        push_str(&mut r, "  ");
        let team = if ids.len() > 0 {
            roster_name_or(names, ids[0], "Unknown")
        } else {
            String::from_str("Unknown")
        };
        push_str(&mut r, team.as_str());
        let empty_pairs: Vec<(String, u32)> = Vec::new();
        let adds = match &tx.adds {
            Some(a) => known_player_names(a, players),
            None => known_player_names(&empty_pairs, players),
        };
        let drops = match &tx.drops {
            Some(d) => known_player_names(d, players),
            None => known_player_names(&empty_pairs, players),
        };
        push_names_clause(&mut r, " added ", &adds);
        push_names_clause(&mut r, " dropped ", &drops);
        push_str(&mut r, "\n");
    }
    r
}

/// The report of recent transactions: those created in the fourteen days
/// before `now_ms` and, when `tx_type` is given, of that type (ignoring
/// ASCII case), at most `limit` of them, in the order given.
pub fn recent_transactions_report(
    txs: &Vec<Transaction>,
    tx_type: Option<&str>,
    limit: u32,
    now_ms: u64,
    names: &HashMap<u32, String>,
    players: &PlayerMap,
) -> (r: String)
    ensures
        r@ == recent_transactions_text(
            txs@,
            match tx_type { Some(t) => Some(t@), None => None },
            limit,
            now_ms,
            text_map(names@),
            *players,
        ),
{
    let ghost filter = match tx_type { Some(t) => Some(t@), None => None::<Seq<char>> };
    let ghost nm = text_map(names@);
    let cutoff = now_ms.saturating_sub(RECENT_TRANSACTION_WINDOW_MS);
    let mut shown: u32 = 0;
    let mut body = String::new();
    for i in 0..txs.len()
        invariant
            (shown as nat, body@) == tx_scan(txs@.take(i as int), filter, cutoff, limit, nm, *players),
            nm == text_map(names@),
            filter == match tx_type { Some(t) => Some(t@), None => None::<Seq<char>> },
    {
        assert(txs@.take(i + 1).drop_last() =~= txs@.take(i as int));
        assert(txs@.take(i + 1).last() == txs@[i as int]);
        let tx = &txs[i];
        if shown < limit {
            let created = match tx.created { Some(c) => c, None => 0 };
            let type_ok = match tx_type {
                Some(f) => eq_ignore_case(str_or(&tx.tx_type, "unknown"), f),
                None => true,
            };
            if created >= cutoff && type_ok {
                let line = transaction_line(tx, names, players);
                push_str(&mut body, line.as_str());
                shown = shown + 1;
            }
        }
    }
    assert(txs@.take(txs.len() as int) =~= txs@);
    if shown == 0 {
        let mut r = String::new();
        push_str(&mut r, "No recent transactions found");
        if let Some(t) = tx_type {
            push_str(&mut r, " of type \"");
            push_str(&mut r, t);
            push_str(&mut r, "\"");
        }
        push_str(&mut r, ".");
        r
    } else {
        let mut r = String::new();
        push_str(&mut r, "Recent transactions:\n");
        push_str(&mut r, body.as_str());
        r
    }
}

/// Milliseconds since the epoch by the system clock
/// (`SystemTime::now().duration_since(UNIX_EPOCH)`, zero before the
/// epoch). Nothing is claimed of the result: it is the clock's reading.
#[verifier::external_body]
fn clock_millis() -> (r: u64) {
    std::time::SystemTime::now().duration_since(std::time::UNIX_EPOCH).unwrap_or_default().as_millis() as u64
}

/// The report of recent transactions as of the system clock; gives the
/// report and the time it was made at.
pub fn recent_transactions_report_now(
    txs: &Vec<Transaction>,
    tx_type: Option<&str>,
    limit: u32,
    names: &HashMap<u32, String>,
    players: &PlayerMap,
) -> (r: (String, u64))
    ensures
        r.0@ == recent_transactions_text(
            txs@,
            match tx_type { Some(t) => Some(t@), None => None },
            limit,
            r.1,
            text_map(names@),
            *players,
        ),
{
    let now = clock_millis();
    (recent_transactions_report(txs, tx_type, limit, now, names, players), now)
}

} // verus!
