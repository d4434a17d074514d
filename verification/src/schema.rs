//! The tools the language models may call, as they are described to
//! them: each tool's name, what it does, and its parameters.
use vstd::prelude::*;
use vstd::string::*;

use crate::text::{same_text, views};
use crate::tools::ToolName;

verus! {

/// The kind of value a parameter takes.
#[derive(PartialEq, Eq, Structural, Clone, Copy, Debug)]
pub enum ParamKind {
    Text,
    Integer,
}

/// One parameter of a tool: its name, kind and description, the values it
/// is limited to (none when any value of its kind will do), its default
/// and its least value.
#[derive(Debug)]
pub struct ToolParam {
    pub name: String,
    pub kind: ParamKind,
    pub description: String,
    pub choices: Vec<String>,
    pub default: Option<u64>,
    pub minimum: Option<u64>,
}

/// A tool as described to a language model: its name, what it does, its
/// parameters, and the names of those that must be given.
#[derive(Debug)]
pub struct ToolSchema {
    pub name: String,
    pub description: String,
    pub params: Vec<ToolParam>,
    pub required: Vec<String>,
}

/// A parameter as plain values: name, kind, description, choices,
/// default, least value.
pub type ParamView = (Seq<char>, ParamKind, Seq<char>, Seq<Seq<char>>, Option<u64>, Option<u64>);

/// A tool description as plain values: name, description, parameters,
/// required parameter names.
pub type SchemaView = (Seq<char>, Seq<char>, Seq<ParamView>, Seq<Seq<char>>);

/// The plain values of a parameter.
pub open spec fn param_view(p: ToolParam) -> ParamView {
    (p.name@, p.kind, p.description@, views(p.choices@), p.default, p.minimum)
}

/// The plain values of a tool description.
pub open spec fn schema_view(s: ToolSchema) -> SchemaView {
    (s.name@, s.description@, s.params@.map_values(|p: ToolParam| param_view(p)), views(s.required@))
}

/// The names of the tools, in the order they are offered.
pub open spec fn tool_names() -> Seq<Seq<char>> {
    seq!["get_league_standings"@, "get_team_roster"@, "get_player_info"@, "search_waiver_wire"@, "get_recent_transactions"@, "get_matchup"@, "get_league_history"@, "get_past_season_results"@, "search_league_messages"@]
}


/// The description of `get_league_standings`.
pub open spec fn get_league_standings_schema() -> SchemaView {
    (
        "get_league_standings"@,
        "Get current league standings including each team's record (wins-losses), total points scored (PF), and total points scored against (PA). Use this to answer questions about who's leading the league, playoff positioning, team comparisons, or any standings-related question."@,
        seq![],
        seq![],
    )
}


/// The description of `get_team_roster`.
pub open spec fn get_team_roster_schema() -> SchemaView {
    (
        "get_team_roster"@,
        "Get the full roster for a specific team, including starters and bench players with their positions. The team is matched fuzzily by display name or team name (case-insensitive). Use this when asked about a specific team's players, lineup, roster composition, or positional depth."@,
        seq![("team_name"@, ParamKind::Text, "The team or owner name to look up (fuzzy matched against display names and team names)"@, seq![], None, None)],
        seq!["team_name"@],
    )
}


/// The description of `get_player_info`.
pub open spec fn get_player_info_schema() -> SchemaView {
    (
        "get_player_info"@,
        "Get detailed information about a specific NFL player including: position, NFL team, age, injury status, depth chart position, historical season stats, and current season projections. Use this when asked about a specific player's value, performance, injury, or outlook."@,
        seq![("player_name"@, ParamKind::Text, "The player's name to look up (fuzzy matched against full player names)"@, seq![], None, None)],
        seq!["player_name"@],
    )
}


/// The description of `search_waiver_wire`.
pub open spec fn search_waiver_wire_schema() -> SchemaView {
    (
        "search_waiver_wire"@,
        "Search for the best available unrostered players on the waiver wire, sorted by projected fantasy points. Optionally filter by position and limit the number of results. Use this when asked about waiver wire pickups, free agents, or available players at a position."@,
        seq![("position"@, ParamKind::Text, "Optional position filter: QB, RB, WR, TE, K, or DEF"@, seq!["QB"@, "RB"@, "WR"@, "TE"@, "K"@, "DEF"@], None, None), ("limit"@, ParamKind::Integer, "Maximum number of players to return (default: 15)"@, seq![], Some(15u64), None)],
        seq![],
    )
}


/// The description of `get_recent_transactions`.
pub open spec fn get_recent_transactions_schema() -> SchemaView {
    (
        "get_recent_transactions"@,
        "Get recent league transactions including trades, waiver claims, and free agent pickups. Optionally filter by transaction type and limit results. Use this when asked about recent moves, trades, waiver activity, or who picked up/dropped a player."@,
        seq![("tx_type"@, ParamKind::Text, "Optional filter by transaction type"@, seq!["trade"@, "waiver"@, "free_agent"@], None, None), ("limit"@, ParamKind::Integer, "Maximum number of transactions to return (default: 10)"@, seq![], Some(10u64), None)],
        seq![],
    )
}


/// The description of `get_matchup`.
pub open spec fn get_matchup_schema() -> SchemaView {
    (
        "get_matchup"@,
        "Get the current week's matchup for a specific team, including the opponent and scores if available. Use this when asked about who a team is playing this week, current matchup scores, or head-to-head details."@,
        seq![("team_name"@, ParamKind::Text, "The team or owner name to look up (fuzzy matched against display names and team names)"@, seq![], None, None)],
        seq!["team_name"@],
    )
}


/// The description of `get_league_history`.
pub open spec fn get_league_history_schema() -> SchemaView {
    (
        "get_league_history"@,
        "Get the league's historical data including past season champions and all-time user statistics (total wins, losses, points, championships). Use this when asked about league history, past champions, dynasty records, or all-time rankings."@,
        seq![],
        seq![],
    )
}


/// The description of `get_past_season_results`.
pub open spec fn get_past_season_results_schema() -> SchemaView {
    (
        "get_past_season_results"@,
        "Get detailed results for a specific past season including final standings (records and points), the full playoff bracket with winners/losers of each round, and the champion. Use seasons_ago=1 for last season, seasons_ago=2 for two seasons ago, etc. Use this when asked about a specific past season's results, final standings, who won the championship that year, or playoff matchup details."@,
        seq![("seasons_ago"@, ParamKind::Integer, "How many seasons back to look (1 = last season, 2 = two seasons ago, etc.)"@, seq![], None, Some(1u64))],
        seq!["seasons_ago"@],
    )
}


/// The description of `search_league_messages`.
pub open spec fn search_league_messages_schema() -> SchemaView {
    (
        "search_league_messages"@,
        "Search through the league's chat message history. Use this when someone asks about what a league member said in the past, such as bets, predictions, claims, trash talk, or any prior statements. You can filter by username, keyword/phrase, and/or date range. Returns up to 1000 messages worth of history."@,
        seq![("username"@, ParamKind::Text, "Optional: filter messages by author display name (case-insensitive, partial match)"@, seq![], None, None), ("keyword"@, ParamKind::Text, "Optional: filter messages containing this keyword or phrase (case-insensitive)"@, seq![], None, None), ("after_date"@, ParamKind::Text, "Optional: only include messages sent after this date (format: YYYY-MM-DD)"@, seq![], None, None), ("before_date"@, ParamKind::Text, "Optional: only include messages sent before this date (format: YYYY-MM-DD)"@, seq![], None, None)],
        seq![],
    )
}


/// The description of the tool named `name`, if there is such a tool.
pub open spec fn schema_spec(name: Seq<char>) -> Option<SchemaView> {
    if name == "get_league_standings"@ {
        Some(get_league_standings_schema())
    } else if name == "get_team_roster"@ {
        Some(get_team_roster_schema())
    } else if name == "get_player_info"@ {
        Some(get_player_info_schema())
    } else if name == "search_waiver_wire"@ {
        Some(search_waiver_wire_schema())
    } else if name == "get_recent_transactions"@ {
        Some(get_recent_transactions_schema())
    } else if name == "get_matchup"@ {
        Some(get_matchup_schema())
    } else if name == "get_league_history"@ {
        Some(get_league_history_schema())
    } else if name == "get_past_season_results"@ {
        Some(get_past_season_results_schema())
    } else if name == "search_league_messages"@ {
        Some(search_league_messages_schema())
    } else {
        None
    }
}

/// The strings of a list of literals.
fn strings(items: &[&str]) -> (v: Vec<String>)
    ensures
        v@.len() == items@.len(),
        forall|k: int| 0 <= k < items@.len() ==> #[trigger] v@[k]@ == items@[k]@,
{
    let mut v: Vec<String> = Vec::new();
    for i in 0..items.len()
        invariant
            v@.len() == i,
            forall|k: int| 0 <= k < i ==> #[trigger] v@[k]@ == items@[k]@,
    {
        v.push(String::from_str(items[i]));
    }
    v
}

/// Builds the description of `get_league_standings`.
fn build_get_league_standings() -> (s: ToolSchema)
    ensures
        schema_view(s) == get_league_standings_schema(),
{
    let mut params: Vec<ToolParam> = Vec::new();
    let required = strings(&[]);
    let s = ToolSchema {
        name: String::from_str("get_league_standings"),
        description: String::from_str("Get current league standings including each team's record (wins-losses), total points scored (PF), and total points scored against (PA). Use this to answer questions about who's leading the league, playoff positioning, team comparisons, or any standings-related question."),
        params,
        required,
    };
    assert(views(s.required@) =~= Seq::<Seq<char>>::empty());
    assert(s.params@.map_values(|p: ToolParam| param_view(p)) =~= get_league_standings_schema().2);
    s
}

/// Builds the description of `get_team_roster`.
fn build_get_team_roster() -> (s: ToolSchema)
    ensures
        schema_view(s) == get_team_roster_schema(),
{
    let mut params: Vec<ToolParam> = Vec::new();
    let choices = strings(&[]);
    assert(views(choices@) =~= Seq::<Seq<char>>::empty());
    params.push(ToolParam {
        name: String::from_str("team_name"),
        kind: ParamKind::Text,
        description: String::from_str("The team or owner name to look up (fuzzy matched against display names and team names)"),
        choices,
        default: None,
        minimum: None,
    });
    let required = strings(&["team_name"]);
    let s = ToolSchema {
        name: String::from_str("get_team_roster"),
        description: String::from_str("Get the full roster for a specific team, including starters and bench players with their positions. The team is matched fuzzily by display name or team name (case-insensitive). Use this when asked about a specific team's players, lineup, roster composition, or positional depth."),
        params,
        required,
    };
    assert(views(s.required@) =~= seq!["team_name"@]);
    assert(s.params@.map_values(|p: ToolParam| param_view(p)) =~= get_team_roster_schema().2);
    s
}

/// Builds the description of `get_player_info`.
fn build_get_player_info() -> (s: ToolSchema)
    ensures
        schema_view(s) == get_player_info_schema(),
{
    let mut params: Vec<ToolParam> = Vec::new();
    let choices = strings(&[]);
    assert(views(choices@) =~= Seq::<Seq<char>>::empty());
    params.push(ToolParam {
        name: String::from_str("player_name"),
        kind: ParamKind::Text,
        description: String::from_str("The player's name to look up (fuzzy matched against full player names)"),
        choices,
        default: None,
        minimum: None,
    });
    let required = strings(&["player_name"]);
    let s = ToolSchema {
        name: String::from_str("get_player_info"),
        description: String::from_str("Get detailed information about a specific NFL player including: position, NFL team, age, injury status, depth chart position, historical season stats, and current season projections. Use this when asked about a specific player's value, performance, injury, or outlook."),
        params,
        required,
    };
    assert(views(s.required@) =~= seq!["player_name"@]);
    assert(s.params@.map_values(|p: ToolParam| param_view(p)) =~= get_player_info_schema().2);
    s
}

/// Builds the description of `search_waiver_wire`.
fn build_search_waiver_wire() -> (s: ToolSchema)
    ensures
        schema_view(s) == search_waiver_wire_schema(),
{
    let mut params: Vec<ToolParam> = Vec::new();
    let choices = strings(&["QB", "RB", "WR", "TE", "K", "DEF"]);
    assert(views(choices@) =~= seq!["QB"@, "RB"@, "WR"@, "TE"@, "K"@, "DEF"@]);
    params.push(ToolParam {
        name: String::from_str("position"),
        kind: ParamKind::Text,
        description: String::from_str("Optional position filter: QB, RB, WR, TE, K, or DEF"),
        choices,
        default: None,
        minimum: None,
    });
    let choices = strings(&[]);
    assert(views(choices@) =~= Seq::<Seq<char>>::empty());
    params.push(ToolParam {
        name: String::from_str("limit"),
        kind: ParamKind::Integer,
        description: String::from_str("Maximum number of players to return (default: 15)"),
        choices,
        default: Some(15),
        minimum: None,
    });
    let required = strings(&[]);
    let s = ToolSchema {
        name: String::from_str("search_waiver_wire"),
        description: String::from_str("Search for the best available unrostered players on the waiver wire, sorted by projected fantasy points. Optionally filter by position and limit the number of results. Use this when asked about waiver wire pickups, free agents, or available players at a position."),
        params,
        required,
    };
    assert(views(s.required@) =~= Seq::<Seq<char>>::empty());
    assert(s.params@.map_values(|p: ToolParam| param_view(p)) =~= search_waiver_wire_schema().2);
    s
}

/// Builds the description of `get_recent_transactions`.
fn build_get_recent_transactions() -> (s: ToolSchema)
    ensures
        schema_view(s) == get_recent_transactions_schema(),
{
    let mut params: Vec<ToolParam> = Vec::new();
    let choices = strings(&["trade", "waiver", "free_agent"]);
    assert(views(choices@) =~= seq!["trade"@, "waiver"@, "free_agent"@]);
    params.push(ToolParam {
        name: String::from_str("tx_type"),
        kind: ParamKind::Text,
        description: String::from_str("Optional filter by transaction type"),
        choices,
        default: None,
        minimum: None,
    });
    let choices = strings(&[]);
    assert(views(choices@) =~= Seq::<Seq<char>>::empty());
    params.push(ToolParam {
        name: String::from_str("limit"),
        kind: ParamKind::Integer,
        description: String::from_str("Maximum number of transactions to return (default: 10)"),
        choices,
        default: Some(10),
        minimum: None,
    });
    let required = strings(&[]);
    let s = ToolSchema {
        name: String::from_str("get_recent_transactions"),
        description: String::from_str("Get recent league transactions including trades, waiver claims, and free agent pickups. Optionally filter by transaction type and limit results. Use this when asked about recent moves, trades, waiver activity, or who picked up/dropped a player."),
        params,
        required,
    };
    assert(views(s.required@) =~= Seq::<Seq<char>>::empty());
    assert(s.params@.map_values(|p: ToolParam| param_view(p)) =~= get_recent_transactions_schema().2);
    s
}

/// Builds the description of `get_matchup`.
fn build_get_matchup() -> (s: ToolSchema)
    ensures
        schema_view(s) == get_matchup_schema(),
{
    let mut params: Vec<ToolParam> = Vec::new();
    let choices = strings(&[]);
    assert(views(choices@) =~= Seq::<Seq<char>>::empty());
    params.push(ToolParam {
        name: String::from_str("team_name"),
        kind: ParamKind::Text,
        description: String::from_str("The team or owner name to look up (fuzzy matched against display names and team names)"),
        choices,
        default: None,
        minimum: None,
    });
    let required = strings(&["team_name"]);
    let s = ToolSchema {
        name: String::from_str("get_matchup"),
        description: String::from_str("Get the current week's matchup for a specific team, including the opponent and scores if available. Use this when asked about who a team is playing this week, current matchup scores, or head-to-head details."),
        params,
        required,
    };
    assert(views(s.required@) =~= seq!["team_name"@]);
    assert(s.params@.map_values(|p: ToolParam| param_view(p)) =~= get_matchup_schema().2);
    s
}

/// Builds the description of `get_league_history`.
fn build_get_league_history() -> (s: ToolSchema)
    ensures
        schema_view(s) == get_league_history_schema(),
{
    let mut params: Vec<ToolParam> = Vec::new();
    let required = strings(&[]);
    let s = ToolSchema {
        name: String::from_str("get_league_history"),
        description: String::from_str("Get the league's historical data including past season champions and all-time user statistics (total wins, losses, points, championships). Use this when asked about league history, past champions, dynasty records, or all-time rankings."),
        params,
        required,
    };
    assert(views(s.required@) =~= Seq::<Seq<char>>::empty());
    assert(s.params@.map_values(|p: ToolParam| param_view(p)) =~= get_league_history_schema().2);
    s
}

/// Builds the description of `get_past_season_results`.
fn build_get_past_season_results() -> (s: ToolSchema)
    ensures
        schema_view(s) == get_past_season_results_schema(),
{
    let mut params: Vec<ToolParam> = Vec::new();
    let choices = strings(&[]);
    assert(views(choices@) =~= Seq::<Seq<char>>::empty());
    params.push(ToolParam {
        name: String::from_str("seasons_ago"),
        kind: ParamKind::Integer,
        description: String::from_str("How many seasons back to look (1 = last season, 2 = two seasons ago, etc.)"),
        choices,
        default: None,
        minimum: Some(1),
    });
    let required = strings(&["seasons_ago"]);
    let s = ToolSchema {
        name: String::from_str("get_past_season_results"),
        description: String::from_str("Get detailed results for a specific past season including final standings (records and points), the full playoff bracket with winners/losers of each round, and the champion. Use seasons_ago=1 for last season, seasons_ago=2 for two seasons ago, etc. Use this when asked about a specific past season's results, final standings, who won the championship that year, or playoff matchup details."),
        params,
        required,
    };
    assert(views(s.required@) =~= seq!["seasons_ago"@]);
    assert(s.params@.map_values(|p: ToolParam| param_view(p)) =~= get_past_season_results_schema().2);
    s
}

/// Builds the description of `search_league_messages`.
fn build_search_league_messages() -> (s: ToolSchema)
    ensures
        schema_view(s) == search_league_messages_schema(),
{
    let mut params: Vec<ToolParam> = Vec::new();
    let choices = strings(&[]);
    assert(views(choices@) =~= Seq::<Seq<char>>::empty());
    params.push(ToolParam {
        name: String::from_str("username"),
        kind: ParamKind::Text,
        description: String::from_str("Optional: filter messages by author display name (case-insensitive, partial match)"),
        choices,
        default: None,
        minimum: None,
    });
    let choices = strings(&[]);
    assert(views(choices@) =~= Seq::<Seq<char>>::empty());
    params.push(ToolParam {
        name: String::from_str("keyword"),
        kind: ParamKind::Text,
        description: String::from_str("Optional: filter messages containing this keyword or phrase (case-insensitive)"),
        choices,
        default: None,
        minimum: None,
    });
    let choices = strings(&[]);
    assert(views(choices@) =~= Seq::<Seq<char>>::empty());
    params.push(ToolParam {
        name: String::from_str("after_date"),
        kind: ParamKind::Text,
        description: String::from_str("Optional: only include messages sent after this date (format: YYYY-MM-DD)"),
        choices,
        default: None,
        minimum: None,
    });
    let choices = strings(&[]);
    assert(views(choices@) =~= Seq::<Seq<char>>::empty());
    params.push(ToolParam {
        name: String::from_str("before_date"),
        kind: ParamKind::Text,
        description: String::from_str("Optional: only include messages sent before this date (format: YYYY-MM-DD)"),
        choices,
        default: None,
        minimum: None,
    });
    let required = strings(&[]);
    let s = ToolSchema {
        name: String::from_str("search_league_messages"),
        description: String::from_str("Search through the league's chat message history. Use this when someone asks about what a league member said in the past, such as bets, predictions, claims, trash talk, or any prior statements. You can filter by username, keyword/phrase, and/or date range. Returns up to 1000 messages worth of history."),
        params,
        required,
    };
    assert(views(s.required@) =~= Seq::<Seq<char>>::empty());
    assert(s.params@.map_values(|p: ToolParam| param_view(p)) =~= search_league_messages_schema().2);
    s
}

/// The description of the tool named `tool`; `None` for a name that is
/// no tool.
pub fn tool_definition(tool: &str) -> (r: Option<ToolSchema>)
    ensures
        match r {
            Some(s) => schema_spec(tool@) == Some(schema_view(s)),
            None => schema_spec(tool@) is None,
        },
{
    if same_text(tool, "get_league_standings") {
        Some(build_get_league_standings())
    } else if same_text(tool, "get_team_roster") {
        Some(build_get_team_roster())
    } else if same_text(tool, "get_player_info") {
        Some(build_get_player_info())
    } else if same_text(tool, "search_waiver_wire") {
        Some(build_search_waiver_wire())
    } else if same_text(tool, "get_recent_transactions") {
        Some(build_get_recent_transactions())
    } else if same_text(tool, "get_matchup") {
        Some(build_get_matchup())
    } else if same_text(tool, "get_league_history") {
        Some(build_get_league_history())
    } else if same_text(tool, "get_past_season_results") {
        Some(build_get_past_season_results())
    } else if same_text(tool, "search_league_messages") {
        Some(build_search_league_messages())
    } else {
        None
    }
}

/// The descriptions of all the tools, in the order they are offered.
pub fn all_tool_definitions() -> (r: Vec<ToolSchema>)
    ensures
        r@.len() == tool_names().len(),
        forall|i: int| 0 <= i < r@.len() ==> schema_spec(#[trigger] tool_names()[i]) == Some(schema_view(r@[i])),
{
    proof {
        reveal_strlit("get_league_standings");
        reveal_strlit("get_team_roster");
        reveal_strlit("get_player_info");
        reveal_strlit("search_waiver_wire");
        reveal_strlit("get_recent_transactions");
        reveal_strlit("get_matchup");
        reveal_strlit("get_league_history");
        reveal_strlit("get_past_season_results");
        reveal_strlit("search_league_messages");
    }
    let mut v: Vec<ToolSchema> = Vec::new();
    v.push(build_get_league_standings());
    v.push(build_get_team_roster());
    v.push(build_get_player_info());
    v.push(build_search_waiver_wire());
    v.push(build_get_recent_transactions());
    v.push(build_get_matchup());
    v.push(build_get_league_history());
    v.push(build_get_past_season_results());
    v.push(build_search_league_messages());
    assert(tool_names()[0] == "get_league_standings"@);
    assert(schema_spec("get_league_standings"@) == Some(get_league_standings_schema()));
    assert(tool_names()[1] == "get_team_roster"@);
    assert("get_team_roster"@.len() != "get_league_standings"@.len());
    assert(schema_spec("get_team_roster"@) == Some(get_team_roster_schema()));
    assert(tool_names()[2] == "get_player_info"@);
    assert("get_player_info"@.len() != "get_league_standings"@.len());
    assert("get_player_info"@[4] != "get_team_roster"@[4]);
    assert(schema_spec("get_player_info"@) == Some(get_player_info_schema()));
    assert(tool_names()[3] == "search_waiver_wire"@);
    assert("search_waiver_wire"@.len() != "get_league_standings"@.len());
    assert("search_waiver_wire"@.len() != "get_team_roster"@.len());
    assert("search_waiver_wire"@.len() != "get_player_info"@.len());
    assert(schema_spec("search_waiver_wire"@) == Some(search_waiver_wire_schema()));
    assert(tool_names()[4] == "get_recent_transactions"@);
    assert("get_recent_transactions"@.len() != "get_league_standings"@.len());
    assert("get_recent_transactions"@.len() != "get_team_roster"@.len());
    assert("get_recent_transactions"@.len() != "get_player_info"@.len());
    assert("get_recent_transactions"@.len() != "search_waiver_wire"@.len());
    assert(schema_spec("get_recent_transactions"@) == Some(get_recent_transactions_schema()));
    assert(tool_names()[5] == "get_matchup"@);
    assert("get_matchup"@.len() != "get_league_standings"@.len());
    assert("get_matchup"@.len() != "get_team_roster"@.len());
    assert("get_matchup"@.len() != "get_player_info"@.len());
    assert("get_matchup"@.len() != "search_waiver_wire"@.len());
    assert("get_matchup"@.len() != "get_recent_transactions"@.len());
    assert(schema_spec("get_matchup"@) == Some(get_matchup_schema()));
    assert(tool_names()[6] == "get_league_history"@);
    assert("get_league_history"@.len() != "get_league_standings"@.len());
    assert("get_league_history"@.len() != "get_team_roster"@.len());
    assert("get_league_history"@.len() != "get_player_info"@.len());
    assert("get_league_history"@[0] != "search_waiver_wire"@[0]);
    assert("get_league_history"@.len() != "get_recent_transactions"@.len());
    assert("get_league_history"@.len() != "get_matchup"@.len());
    assert(schema_spec("get_league_history"@) == Some(get_league_history_schema()));
    assert(tool_names()[7] == "get_past_season_results"@);
    assert("get_past_season_results"@.len() != "get_league_standings"@.len());
    assert("get_past_season_results"@.len() != "get_team_roster"@.len());
    assert("get_past_season_results"@.len() != "get_player_info"@.len());
    assert("get_past_season_results"@.len() != "search_waiver_wire"@.len());
    assert("get_past_season_results"@[4] != "get_recent_transactions"@[4]);
    assert("get_past_season_results"@.len() != "get_matchup"@.len());
    assert("get_past_season_results"@.len() != "get_league_history"@.len());
    assert(schema_spec("get_past_season_results"@) == Some(get_past_season_results_schema()));
    assert(tool_names()[8] == "search_league_messages"@);
    assert("search_league_messages"@.len() != "get_league_standings"@.len());
    assert("search_league_messages"@.len() != "get_team_roster"@.len());
    assert("search_league_messages"@.len() != "get_player_info"@.len());
    assert("search_league_messages"@.len() != "search_waiver_wire"@.len());
    assert("search_league_messages"@.len() != "get_recent_transactions"@.len());
    assert("search_league_messages"@.len() != "get_matchup"@.len());
    assert("search_league_messages"@.len() != "get_league_history"@.len());
    assert("search_league_messages"@.len() != "get_past_season_results"@.len());
    assert(schema_spec("search_league_messages"@) == Some(search_league_messages_schema()));
    v
}

/// How many results a call shows: the limit it gives, else the default
/// that its tool's description states; `None` for a tool without a limit.
pub fn call_limit(call: &ToolName) -> (r: Option<u32>)
    ensures
        match call {
            ToolName::SearchWaiverWire { limit, .. } => r == Some(match limit {
                Some(l) => *l,
                None => search_waiver_wire_schema().2[1].4->0 as u32,
            }),
            ToolName::GetRecentTransactions { limit, .. } => r == Some(match limit {
                Some(l) => *l,
                None => get_recent_transactions_schema().2[1].4->0 as u32,
            }),
            _ => r is None,
        },
{
    match call {
        ToolName::SearchWaiverWire { limit, .. } => Some(match limit {
            Some(l) => *l,
            None => 15,
        }),
        ToolName::GetRecentTransactions { limit, .. } => Some(match limit {
            Some(l) => *l,
            None => 10,
        }),
        _ => None,
    }
}

} // verus!
