use vstd::prelude::*;
use vstd::string::*;
use std::collections::HashMap;

use crate::sleeper::{
    completed_trade, format_player_name, player_name_text, text_map, DraftPick, PlayerMap,
    Transaction,
};
use crate::state::ReviewState;
use crate::text::{decimal, push_decimal, push_str, str_or, text_or, views};

verus! {

broadcast use vstd::std_specs::hash::group_hash_axioms;

/// One further side of a trade of more than two teams: its name, record
/// and what it receives (players, then draft picks).
#[derive(Debug)]
pub struct TradeSide {
    pub name: String,
    pub record: String,
    pub receives: Vec<String>,
}

/// A view of a trade by receiving team: the first two listed rosters as
/// sides A and B, each with its name, record and what it receives
/// (players, then draft picks), and every other receiving roster after
/// them.
#[derive(Debug)]
pub struct TradeSummary {
    pub team_a_name: String,
    pub team_a_record: String,
    pub team_a_receives: Vec<String>,
    pub team_b_name: String,
    pub team_b_record: String,
    pub team_b_receives: Vec<String>,
    pub other_teams: Vec<TradeSide>,
}

// ───────────── Specifications ─────────────

/// The name of a roster: its entry in `names`, else "Team N".
pub open spec fn team_name_text(names: Map<u32, Seq<char>>, rid: u32) -> Seq<char> {
    if names.contains_key(rid) {
        names[rid]
    } else {
        "Team "@ + decimal(rid as nat)
    }
}

/// The record of a roster: its entry in `records`, else "0-0".
pub open spec fn team_record_text(records: Map<u32, Seq<char>>, rid: u32) -> Seq<char> {
    if records.contains_key(rid) {
        records[rid]
    } else {
        "0-0"@
    }
}

/// The new owner of a pick (0 when unknown).
pub open spec fn pick_owner(p: DraftPick) -> u32 {
    p.owner_id.unwrap_or(0)
}

/// "SEASON Round N Pick", noting the original team when the pick changed
/// hands.
pub open spec fn pick_text(p: DraftPick, names: Map<u32, Seq<char>>) -> Seq<char> {
    let owner = pick_owner(p);
    let original = p.roster_id.unwrap_or(0);
    let base = text_or(p.season, "????"@) + " Round "@ + decimal(p.round.unwrap_or(0) as nat) + " Pick"@;
    if original != owner {
        base + " (originally "@ + team_name_text(names, original) + "'s)"@
    } else {
        base
    }
}

/// The players added to roster `rid`, by display name, in listed order.
pub open spec fn adds_for(adds: Seq<(String, u32)>, rid: u32, players: PlayerMap) -> Seq<Seq<char>>
    decreases adds.len(),
{
    if adds.len() == 0 {
        Seq::empty()
    } else {
        let rest = adds_for(adds.drop_last(), rid, players);
        let (pid, to) = adds.last();
        if to == rid {
            rest.push(player_name_text(pid@, players.lookup(pid@)))
        } else {
            rest
        }
    }
}

/// The picks now owned by roster `rid`, in listed order.
pub open spec fn picks_for(picks: Seq<DraftPick>, rid: u32, names: Map<u32, Seq<char>>) -> Seq<Seq<char>>
    decreases picks.len(),
{
    if picks.len() == 0 {
        Seq::empty()
    } else {
        let rest = picks_for(picks.drop_last(), rid, names);
        if pick_owner(picks.last()) == rid {
            rest.push(pick_text(picks.last(), names))
        } else {
            rest
        }
    }
}

/// Everything roster `rid` receives: its added players, then its picks.
pub open spec fn receives_text(
    tx: Transaction,
    rid: u32,
    names: Map<u32, Seq<char>>,
    players: PlayerMap,
) -> Seq<Seq<char>> {
    let a = match tx.adds {
        Some(adds) => adds_for(adds@, rid, players),
        None => Seq::empty(),
    };
    let p = match tx.draft_picks {
        Some(picks) => picks_for(picks@, rid, names),
        None => Seq::empty(),
    };
    a + p
}

/// The rosters that receive added players, in listed order.
pub open spec fn add_receivers(tx: Transaction) -> Seq<u32> {
    match tx.adds {
        Some(adds) => adds@.map_values(|p: (String, u32)| p.1),
        None => Seq::empty(),
    }
}

/// The new owners of the traded picks, in listed order.
pub open spec fn pick_owners(tx: Transaction) -> Seq<u32> {
    match tx.draft_picks {
        Some(picks) => picks@.map_values(|p: DraftPick| pick_owner(p)),
        None => Seq::empty(),
    }
}

/// Every roster a trade names: the listed rosters, then the receivers of
/// players, then the new owners of picks.
pub open spec fn trade_roster_ids(tx: Transaction) -> Seq<u32> {
    let listed = match tx.roster_ids {
        Some(ids) => ids@,
        None => Seq::empty(),
    };
    listed + add_receivers(tx) + pick_owners(tx)
}

/// The rosters of `xs` other than `a` and `b`, each once, in order of
/// first appearance.
pub open spec fn other_rosters(xs: Seq<u32>, a: u32, b: u32) -> Seq<u32>
    decreases xs.len(),
{
    if xs.len() == 0 {
        Seq::empty()
    } else {
        let rest = other_rosters(xs.drop_last(), a, b);
        let x = xs.last();
        if x == a || x == b || rest.contains(x) {
            rest
        } else {
            rest.push(x)
        }
    }
}

/// The side expected for roster `rid`.
pub open spec fn side_holds(
    side: TradeSide,
    tx: Transaction,
    rid: u32,
    names: Map<u32, Seq<char>>,
    records: Map<u32, Seq<char>>,
    players: PlayerMap,
) -> bool {
    &&& side.name@ == team_name_text(names, rid)
    &&& side.record@ == team_record_text(records, rid)
    &&& views(side.receives@) == receives_text(tx, rid, names, players)
}

/// The summary fields a trade yields: the first two listed rosters are
/// sides A and B; when both are the same roster, side B receives nothing
/// (its share was already given to side A). Every other roster the trade
/// names, listed or receiving, follows as a further side, once each, in
/// order of first appearance.
pub open spec fn trade_summary_holds(
    s: TradeSummary,
    tx: Transaction,
    names: Map<u32, Seq<char>>,
    records: Map<u32, Seq<char>>,
    players: PlayerMap,
) -> bool {
    let ids = tx.roster_ids.unwrap()@;
    let a = ids[0];
    let b = ids[1];
    let others = other_rosters(trade_roster_ids(tx), a, b);
    &&& s.team_a_name@ == team_name_text(names, a)
    &&& s.team_a_record@ == team_record_text(records, a)
    &&& views(s.team_a_receives@) == receives_text(tx, a, names, players)
    &&& s.team_b_name@ == team_name_text(names, b)
    &&& s.team_b_record@ == team_record_text(records, b)
    &&& views(s.team_b_receives@) == if a == b { Seq::empty() } else { receives_text(tx, b, names, players) }
    &&& s.other_teams@.len() == others.len()
    &&& forall|k: int| 0 <= k < others.len() ==> side_holds(
        #[trigger] s.other_teams@[k],
        tx,
        others[k],
        names,
        records,
        players,
    )
}

/// The trade has at least two rosters, so it can be summarised.
pub open spec fn summarizable(tx: Transaction) -> bool {
    tx.roster_ids matches Some(ids) && ids@.len() >= 2
}

// ───────────── Executable parts ─────────────

fn team_name(names: &HashMap<u32, String>, rid: u32) -> (r: String)
    ensures
        r@ == team_name_text(text_map(names@), rid),
{
    match names.get(&rid) {
        Some(n) => n.clone(),
        None => {
            let mut r = String::new();
            push_str(&mut r, "Team ");
            push_decimal(&mut r, rid as u64);
            r
        },
    }
}

fn team_record(records: &HashMap<u32, String>, rid: u32) -> (r: String)
    ensures
        r@ == team_record_text(text_map(records@), rid),
{
    match records.get(&rid) {
        Some(n) => n.clone(),
        None => {
            let mut r = String::new();
            push_str(&mut r, "0-0");
            r
        },
    }
}

fn pick_description(p: &DraftPick, names: &HashMap<u32, String>) -> (r: String)
    ensures
        r@ == pick_text(*p, text_map(names@)),
{
    let owner = match p.owner_id { Some(o) => o, None => 0 };
    let original = match p.roster_id { Some(o) => o, None => 0 };
    let round = match p.round { Some(o) => o, None => 0 };
    let mut r = String::new();
    push_str(&mut r, str_or(&p.season, "????"));
    push_str(&mut r, " Round ");
    push_decimal(&mut r, round as u64);
    push_str(&mut r, " Pick");
    if original != owner {
        push_str(&mut r, " (originally ");
        let orig_name = team_name(names, original);
        push_str(&mut r, orig_name.as_str());
        push_str(&mut r, "'s)");
    }
    r
}

/// What roster `rid` receives in the trade.
fn receives_of(
    tx: &Transaction,
    rid: u32,
    names: &HashMap<u32, String>,
    players: &PlayerMap,
) -> (v: Vec<String>)
    ensures
        views(v@) == receives_text(*tx, rid, text_map(names@), *players),
{
    let mut v: Vec<String> = Vec::new();
    if let Some(adds) = &tx.adds {
        for i in 0..adds.len()
            invariant
                views(v@) == adds_for(adds@.take(i as int), rid, *players),
        {
            assert(adds@.take(i + 1).drop_last() =~= adds@.take(i as int));
            assert(adds@.take(i + 1).last() == adds@[i as int]);
            if adds[i].1 == rid {
                let name = format_player_name(adds[i].0.as_str(), players);
                let ghost before = views(v@);
                v.push(name);
                assert(views(v@) =~= before.push(name@));
            }
        }
        assert(adds@.take(adds.len() as int) =~= adds@);
    }
    let ghost from_adds = views(v@);
    if let Some(picks) = &tx.draft_picks {
        for i in 0..picks.len()
            invariant
                views(v@) == from_adds + picks_for(picks@.take(i as int), rid, text_map(names@)),
        {
            assert(picks@.take(i + 1).drop_last() =~= picks@.take(i as int));
            assert(picks@.take(i + 1).last() == picks@[i as int]);
            let owner = match picks[i].owner_id { Some(o) => o, None => 0 };
            if owner == rid {
                let d = pick_description(&picks[i], names);
                let ghost before = views(v@);
                v.push(d);
                assert(views(v@) =~= before.push(d@));
            }
        }
        assert(picks@.take(picks.len() as int) =~= picks@);
    } else {
        assert(views(v@) =~= from_adds + Seq::<Seq<char>>::empty());
    }
    v
}

/// Whether `x` is in `v`.
fn has_id(v: &Vec<u32>, x: u32) -> (b: bool)
    ensures
        b == v@.contains(x),
{
    for i in 0..v.len()
        invariant
            forall|k: int| 0 <= k < i ==> v@[k] != x,
    {
        if v[i] == x {
            return true;
        }
    }
    false
}

/// Every roster the trade names, as [`trade_roster_ids`].
fn all_roster_ids(tx: &Transaction) -> (v: Vec<u32>)
    ensures
        v@ == trade_roster_ids(*tx),
{
    let mut v: Vec<u32> = Vec::new();
    if let Some(ids) = &tx.roster_ids {
        for i in 0..ids.len()
            invariant
                v@ == ids@.take(i as int),
        {
            v.push(ids[i]);
            assert(v@ =~= ids@.take(i + 1));
        }
        assert(ids@.take(ids.len() as int) =~= ids@);
    }
    let ghost listed = v@;
    assert(listed == match tx.roster_ids { Some(ids) => ids@, None => Seq::<u32>::empty() });
    if let Some(adds) = &tx.adds {
        for i in 0..adds.len()
            invariant
                v@ == listed + adds@.take(i as int).map_values(|p: (String, u32)| p.1),
        {
            v.push(adds[i].1);
            assert(adds@.take(i + 1).map_values(|p: (String, u32)| p.1)
                =~= adds@.take(i as int).map_values(|p: (String, u32)| p.1).push(adds@[i as int].1));
        }
        assert(adds@.take(adds.len() as int) =~= adds@);
    }
    assert(v@ =~= listed + add_receivers(*tx));
    let ghost with_adds = v@;
    if let Some(picks) = &tx.draft_picks {
        for i in 0..picks.len()
            invariant
                v@ == with_adds + picks@.take(i as int).map_values(|p: DraftPick| pick_owner(p)),
        {
            let owner = match picks[i].owner_id { Some(o) => o, None => 0 };
            v.push(owner);
            assert(picks@.take(i + 1).map_values(|p: DraftPick| pick_owner(p))
                =~= picks@.take(i as int).map_values(|p: DraftPick| pick_owner(p)).push(pick_owner(picks@[i as int])));
        }
        assert(picks@.take(picks.len() as int) =~= picks@);
    }
    assert(v@ =~= trade_roster_ids(*tx));
    v
}

/// Parse a trade into a summary by receiving team: the first two listed
/// rosters are sides A and B, and every other roster the trade lists or
/// gives something to follows; each side receives the players added to it
/// and the draft picks it now owns. `None` when fewer than two rosters are
/// listed.
pub fn parse_trade(
    tx: &Transaction,
    roster_names: &HashMap<u32, String>,
    roster_records: &HashMap<u32, String>,
    players: &PlayerMap,
) -> (r: Option<TradeSummary>)
    ensures
        r is Some <==> summarizable(*tx),
        r matches Some(s) ==> trade_summary_holds(s, *tx, text_map(roster_names@), text_map(roster_records@), *players),
{
    let ids = match &tx.roster_ids {
        Some(ids) => ids,
        None => return None,
    };
    if ids.len() < 2 {
        return None;
    }
    let a = ids[0];
    let b = ids[1];
    let a_receives = receives_of(tx, a, roster_names, players);
    let b_receives = if a == b {
        let v: Vec<String> = Vec::new();
        assert(views(v@) =~= Seq::<Seq<char>>::empty());
        v
    } else {
        receives_of(tx, b, roster_names, players)
    };
    let all = all_roster_ids(tx);
    let mut others: Vec<u32> = Vec::new();
    for i in 0..all.len()
        invariant
            others@ == other_rosters(all@.take(i as int), a, b),
    {
        assert(all@.take(i + 1).drop_last() =~= all@.take(i as int));
        assert(all@.take(i + 1).last() == all@[i as int]);
        let x = all[i];
        if x != a && x != b && !has_id(&others, x) {
            others.push(x);
        }
    }
    assert(all@.take(all.len() as int) =~= all@);
    let mut other_teams: Vec<TradeSide> = Vec::new();
    for k in 0..others.len()
        invariant
            other_teams@.len() == k,
            forall|j: int| 0 <= j < k ==> side_holds(
                #[trigger] other_teams@[j],
                *tx,
                others@[j],
                text_map(roster_names@),
                text_map(roster_records@),
                *players,
            ),
    {
        let rid = others[k];
        other_teams.push(TradeSide {
            name: team_name(roster_names, rid),
            record: team_record(roster_records, rid),
            receives: receives_of(tx, rid, roster_names, players),
        });
    }
    Some(TradeSummary {
        team_a_name: team_name(roster_names, a),
        team_a_record: team_record(roster_records, a),
        team_a_receives: a_receives,
        team_b_name: team_name(roster_names, b),
        team_b_record: team_record(roster_records, b),
        team_b_receives: b_receives,
        other_teams,
    })
}

/// One side's block of the prompt.
pub open spec fn side_block(name: Seq<char>, record: Seq<char>, items: Seq<Seq<char>>) -> Seq<char> {
    name + " (Record: "@ + record + ") receives:\n"@ + item_lines(items)
}

/// "  - item\n" per item, or "  - (nothing)\n" for no items.
pub open spec fn item_lines(items: Seq<Seq<char>>) -> Seq<char> {
    if items.len() == 0 {
        "  - (nothing)\n"@
    } else {
        bullet_lines(items)
    }
}

/// "  - item\n" per item.
pub open spec fn bullet_lines(items: Seq<Seq<char>>) -> Seq<char>
    decreases items.len(),
{
    if items.len() == 0 {
        Seq::empty()
    } else {
        bullet_lines(items.drop_last()) + "  - "@ + items.last() + "\n"@
    }
}

/// The blocks of further sides, each after a blank line.
pub open spec fn other_blocks(sides: Seq<TradeSide>) -> Seq<char>
    decreases sides.len(),
{
    if sides.len() == 0 {
        Seq::empty()
    } else {
        let t = sides.last();
        other_blocks(sides.drop_last()) + "\n"@ + side_block(t.name@, t.record@, views(t.receives@))
    }
}

/// The trade prompt for the analyst.
pub open spec fn prompt_text(s: TradeSummary) -> Seq<char> {
    "Analyze this fantasy football trade:\n\nTRADE:\n"@
        + side_block(s.team_a_name@, s.team_a_record@, views(s.team_a_receives@)) + "\n"@
        + side_block(s.team_b_name@, s.team_b_record@, views(s.team_b_receives@))
        + other_blocks(s.other_teams@)
        + "\nWho won this trade and why?"@
}

fn push_side(msg: &mut String, name: &str, record: &str, items: &Vec<String>)
    ensures
        final(msg)@ == old(msg)@ + side_block(name@, record@, views(items@)),
{
    let ghost start = msg@;
    push_str(msg, name);
    push_str(msg, " (Record: ");
    push_str(msg, record);
    push_str(msg, ") receives:\n");
    let ghost head = msg@;
    if items.len() == 0 {
        push_str(msg, "  - (nothing)\n");
    } else {
        for i in 0..items.len()
            invariant
                msg@ == head + bullet_lines(views(items@).take(i as int)),
        {
            push_str(msg, "  - ");
            push_str(msg, items[i].as_str());
            push_str(msg, "\n");
            assert(views(items@).take(i + 1).drop_last() =~= views(items@).take(i as int));
            assert(views(items@).take(i + 1).last() == items@[i as int]@);
        }
        assert(views(items@).take(items.len() as int) =~= views(items@));
    }
}

/// The analyst prompt for a trade: each side's name, record and what it
/// receives, then the question of who won.
pub fn build_prompt(summary: &TradeSummary) -> (r: String)
    ensures
        r@ == prompt_text(*summary),
{
    let mut msg = String::new();
    push_str(&mut msg, "Analyze this fantasy football trade:\n\nTRADE:\n");
    push_side(&mut msg, summary.team_a_name.as_str(), summary.team_a_record.as_str(), &summary.team_a_receives);
    push_str(&mut msg, "\n");
    push_side(&mut msg, summary.team_b_name.as_str(), summary.team_b_record.as_str(), &summary.team_b_receives);
    let ghost head = msg@;
    for k in 0..summary.other_teams.len()
        invariant
            msg@ == head + other_blocks(summary.other_teams@.take(k as int)),
    {
        let t = &summary.other_teams[k];
        push_str(&mut msg, "\n");
        push_side(&mut msg, t.name.as_str(), t.record.as_str(), &t.receives);
        assert(summary.other_teams@.take(k + 1).drop_last() =~= summary.other_teams@.take(k as int));
    }
    assert(summary.other_teams@.take(summary.other_teams.len() as int) =~= summary.other_teams@);
    push_str(&mut msg, "\nWho won this trade and why?");
    msg
}

// ───────────── Choosing the trades to review ─────────────

/// Milliseconds in a day.
pub const MS_PER_DAY: u64 = 86400000;

/// The earliest creation time, in milliseconds, of a trade to review:
/// `days` before `now_ms`, or zero when that reaches before the epoch.
pub fn trade_cutoff_ms(now_ms: u64, days: u64) -> (c: u64)
    requires
        days * MS_PER_DAY <= u64::MAX,
    ensures
        c == if now_ms >= days * MS_PER_DAY { now_ms - days * MS_PER_DAY } else { 0 },
{
    now_ms.saturating_sub(days * MS_PER_DAY)
}

/// A trade still to review: completed, not yet reviewed, and created at
/// or after the cutoff (a missing creation time counts as zero).
pub open spec fn is_new_trade(tx: Transaction, reviewed: Set<Seq<char>>, cutoff_ms: u64) -> bool {
    &&& completed_trade(tx)
    &&& !reviewed.contains(text_or(tx.transaction_id, "unknown"@))
    &&& tx.created.unwrap_or(0) >= cutoff_ms
}

/// The positions, in order, of the transactions that are new trades.
pub open spec fn new_trade_positions(
    txs: Seq<Transaction>,
    reviewed: Set<Seq<char>>,
    cutoff_ms: u64,
) -> Seq<usize>
    decreases txs.len(),
{
    if txs.len() == 0 {
        Seq::empty()
    } else {
        let rest = new_trade_positions(txs.drop_last(), reviewed, cutoff_ms);
        if is_new_trade(txs.last(), reviewed, cutoff_ms) {
            rest.push((txs.len() - 1) as usize)
        } else {
            rest
        }
    }
}

/// The positions of the trades to review, in transaction order.
pub fn select_new_trades(
    transactions: &Vec<Transaction>,
    review_state: &ReviewState,
    cutoff_ms: u64,
) -> (v: Vec<usize>)
    ensures
        v@ == new_trade_positions(transactions@, review_state.reviewed(), cutoff_ms),
{
    let mut v: Vec<usize> = Vec::new();
    for i in 0..transactions.len()
        invariant
            v@ == new_trade_positions(transactions@.take(i as int), review_state.reviewed(), cutoff_ms),
    {
        let tx = &transactions[i];
        assert(transactions@.take(i + 1).drop_last() =~= transactions@.take(i as int));
        assert(transactions@.take(i + 1).last() == transactions@[i as int]);
        let created = match tx.created { Some(c) => c, None => 0 };
        if tx.is_completed_trade() && !review_state.is_reviewed(tx.id()) && created >= cutoff_ms {
            v.push(i);
        }
    }
    assert(transactions@.take(transactions.len() as int) =~= transactions@);
    v
}

/// What follows the analysis of a trade: an analysis is to be posted and
/// the trade is marked as reviewed; without one the trade stays unreviewed
/// (to be tried again) and nothing is posted. Returns the text to post.
pub fn finish_review(state: &mut ReviewState, tx_id: &str, analysis: Result<String, String>) -> (post: Option<String>)
    ensures
        match analysis {
            Ok(a) => post matches Some(p) && p@ == a@ && final(state).reviewed() == old(state).reviewed().insert(tx_id@),
            Err(_) => post is None && final(state).reviewed() == old(state).reviewed(),
        },
{
    match analysis {
        Ok(a) => {
            state.mark_reviewed(tx_id);
            Some(a)
        },
        Err(_) => None,
    }
}

} // verus!
