# sleeper_bot

A bot for a Sleeper fantasy football league: it reviews new trades with a
language model in a chosen persona, and answers @mentions in league chat
with an agent that looks league data up through tools.

## Layout

- `src/` — the verified library (Verus). Each public function states what it
  returns in its contract.
  - `text.rs` — string operations and their specifications.
  - `sleeper.rs`, `lineup.rs` — the league data model, records, player
    names, lineup and league summaries.
  - `trade_analyzer.rs` — turning a trade into a two-sided summary and the
    review prompt; choosing which trades to review.
  - `state.rs` — what was reviewed and answered, and the per-user memory of
    recent exchanges.
  - `chat.rs` — mentions, the compact league context, and deciding what to
    do with a chat message.
  - `json.rs`, `graphql.rs` — JSON documents and the session token (claims,
    expiry).
  - `tools.rs`, `schema.rs`, `search.rs`, `history.rs` — the agent's
    tools: parsing a call and building each report; how each tool is
    described to the models; chat search paging; past seasons.
  - `agent.rs` — what an agent does with a model reply, tool results, and
    request retries.
  - `news.rs`, `llm.rs`, `config.rs`, `order.rs` — news search text, model
    instructions, configuration values, and stable rankings.
  - `laws.rs` — properties across calls (trades and messages are handled
    once, bounded searches and retries, and more).
- `tests/` — tests of the library.
- `app/` — the program: command line, HTTP clients, files, and the parts
  that compute with fractional points.
