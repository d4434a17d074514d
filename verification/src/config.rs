//! The bot's configuration file, as values.
use vstd::prelude::*;
use vstd::string::*;

verus! {

/// The configuration: the league section.
#[derive(Debug)]
pub struct Config {
    pub league: LeagueConfig,
}

/// The league section of the configuration.
#[derive(Debug)]
pub struct LeagueConfig {
    /// Optional free-form notes about the league (payouts, custom rules,
    /// etc.) appended to the API-derived format summary.
    pub rules: Option<String>,
    /// Optional override for the scoring format used when looking up
    /// projections; when unset it is derived from the league's scoring.
    pub scoring: Option<String>,
    /// The user name the bot answers to in league chat.
    pub bot_username: String,
}

/// The user name the bot answers to when the configuration names none.
pub fn default_bot_username() -> (r: String)
    ensures
        r@ == "tradebot123"@,
{
    String::from_str("tradebot123")
}

} // verus!
