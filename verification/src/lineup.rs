use vstd::prelude::*;
use vstd::string::*;

use crate::sleeper::League;
use crate::text::{
    decimal, join, joined, lemma_lex_antisym, lemma_lex_total, lemma_lex_trans, lex_le,
    lex_le_str, lex_lt, push_decimal, push_str, same_text, to_upper, uppercase,
    views,
};

verus! {

// ───────────── Specifications ─────────────

/// The display order of known lineup slots: starters, flexes, kicker and
/// defense, defensive players, then bench, injured reserve and taxi.
pub open spec fn slot_order() -> Seq<Seq<char>> {
    seq![
        "QB"@, "RB"@, "WR"@, "TE"@, "SUPER_FLEX"@, "SF"@, "Q-FLEX"@, "QFLEX"@, "REC_FLEX"@,
        "WRRB_FLEX"@, "FLEX"@, "K"@, "DEF"@, "DL"@, "LB"@, "DB"@, "IDP_FLEX"@, "BN"@, "IR"@,
        "TAXI"@,
    ]
}

/// The slot names that allow a second quarterback.
pub open spec fn is_superflex_slot(upper: Seq<char>) -> bool {
    upper == "SUPER_FLEX"@ || upper == "SF"@ || upper == "Q-FLEX"@ || upper == "QFLEX"@
}

/// The upper-cased slot names.
pub open spec fn upper_slots(positions: Seq<String>) -> Seq<Seq<char>> {
    positions.map_values(|p: String| uppercase(p@))
}

/// How often `k` occurs in `s`.
pub open spec fn count_in(s: Seq<Seq<char>>, k: Seq<char>) -> nat
    decreases s.len(),
{
    if s.len() == 0 {
        0
    } else {
        count_in(s.drop_last(), k) + if s.last() == k { 1nat } else { 0nat }
    }
}

/// "N SLOT".
pub open spec fn count_part(n: nat, key: Seq<char>) -> Seq<char> {
    decimal(n) + " "@ + key
}

/// The pieces for the known slots present in `slots`, in display order.
pub open spec fn known_parts(order: Seq<Seq<char>>, slots: Seq<Seq<char>>) -> Seq<Seq<char>>
    decreases order.len(),
{
    if order.len() == 0 {
        Seq::empty()
    } else {
        let rest = known_parts(order.drop_last(), slots);
        let k = order.last();
        if count_in(slots, k) > 0 {
            rest.push(count_part(count_in(slots, k), k))
        } else {
            rest
        }
    }
}

/// Strictly increasing in lexicographic order.
pub open spec fn strictly_sorted(l: Seq<Seq<char>>) -> bool {
    forall|i: int, j: int| 0 <= i < j < l.len() ==> lex_lt(#[trigger] l[i], #[trigger] l[j])
}

/// `l` lists, in increasing order, the slot names of `slots` that are not
/// known slots.
pub open spec fn is_leftover_listing(slots: Seq<Seq<char>>, l: Seq<Seq<char>>) -> bool {
    &&& strictly_sorted(l)
    &&& forall|k: Seq<char>| #[trigger] l.contains(k) <==> (slots.contains(k) && !slot_order().contains(k))
}

/// The unrecognised slot names of `slots`, each once, in increasing order.
pub open spec fn leftover_slots(slots: Seq<Seq<char>>) -> Seq<Seq<char>> {
    choose|l: Seq<Seq<char>>| is_leftover_listing(slots, l)
}

/// The pieces for the unrecognised slots.
pub open spec fn leftover_parts(slots: Seq<Seq<char>>) -> Seq<Seq<char>> {
    leftover_slots(slots).map_values(|k: Seq<char>| count_part(count_in(slots, k), k))
}

/// The lineup summary "1 QB, 2 RB, ...", or "Unknown roster format" when
/// the league lists no slots.
pub open spec fn lineup_text(positions: Option<Vec<String>>) -> Seq<char> {
    match positions {
        Some(p) => if p@.len() > 0 {
            let slots = upper_slots(p@);
            joined(known_parts(slot_order(), slots) + leftover_parts(slots), ", "@)
        } else {
            "Unknown roster format"@
        },
        None => "Unknown roster format"@,
    }
}

/// Whether any slot of the league is a superflex slot.
pub open spec fn league_is_superflex(positions: Option<Vec<String>>) -> bool {
    match positions {
        Some(p) => exists|i: int| 0 <= i < p@.len() && is_superflex_slot(#[trigger] uppercase(p@[i]@)),
        None => false,
    }
}

/// The number of teams: the roster count, else the settings' team count,
/// else zero.
pub open spec fn team_count(l: League) -> nat {
    match l.total_rosters {
        Some(n) => n as nat,
        None => match l.settings {
            Some(s) => s.num_teams.unwrap_or(0) as nat,
            None => 0,
        },
    }
}

/// "dynasty", "keeper", "redraft", or "fantasy" when unknown.
pub open spec fn league_kind(l: League) -> Seq<char> {
    match l.settings {
        Some(s) => match s.league_type {
            Some(t) => if t == 2 {
                "dynasty"@
            } else if t == 1 {
                "keeper"@
            } else if t == 0 {
                "redraft"@
            } else {
                "fantasy"@
            },
            None => "fantasy"@,
        },
        None => "fantasy"@,
    }
}

/// The one-line league summary.
pub open spec fn summary_text(
    l: League,
    scoring_highlights: Option<Seq<char>>,
    extra_rules: Option<Seq<char>>,
) -> Seq<char> {
    let sf = if league_is_superflex(l.roster_positions) { " superflex"@ } else { Seq::empty() };
    let head = if team_count(l) > 0 {
        decimal(team_count(l)) + "-team"@ + sf + " "@ + league_kind(l) + " league."@
    } else {
        league_kind(l) + " league."@
    };
    let lineup = lineup_text(l.roster_positions);
    let with_lineup = if lineup.len() > 0 && lineup != "Unknown roster format"@ {
        head + " Lineup: "@ + lineup + "."@
    } else {
        head
    };
    let with_scoring = match scoring_highlights {
        Some(h) => with_lineup + " Scoring: "@ + h + "."@,
        None => with_lineup,
    };
    match extra_rules {
        Some(notes) => if notes.len() > 0 {
            with_scoring + " Additional notes: "@ + notes
        } else {
            with_scoring
        },
        None => with_scoring,
    }
}

// ───────────── Lemmas ─────────────

proof fn lemma_count_push(s: Seq<Seq<char>>, x: Seq<char>, k: Seq<char>)
    ensures
        count_in(s.push(x), k) == count_in(s, k) + if x == k { 1nat } else { 0nat },
{
    assert(s.push(x).drop_last() =~= s);
}

proof fn lemma_count_absent(s: Seq<Seq<char>>, k: Seq<char>)
    requires
        !s.contains(k),
    ensures
        count_in(s, k) == 0,
    decreases s.len(),
{
    if s.len() > 0 {
        assert(!s.drop_last().contains(k)) by {
            if s.drop_last().contains(k) {
                let i = choose|i: int| 0 <= i < s.drop_last().len() && s.drop_last()[i] == k;
                assert(s[i] == k);
            }
        }
        lemma_count_absent(s.drop_last(), k);
        assert(s.last() != k) by {
            if s.last() == k {
                assert(s[s.len() - 1] == k);
            }
        }
    }
}

/// Two increasing listings of the same names are the same listing.
proof fn lemma_sorted_unique(a: Seq<Seq<char>>, b: Seq<Seq<char>>)
    requires
        strictly_sorted(a),
        strictly_sorted(b),
        forall|k: Seq<char>| a.contains(k) <==> b.contains(k),
    ensures
        a == b,
    decreases a.len(),
{
    if a.len() == 0 {
        if b.len() > 0 {
            assert(b.contains(b[0]));
        }
        assert(a =~= b);
    } else {
        assert(a.contains(a[0]));
        assert(b.len() > 0);
        assert(b.contains(b[0]));
        // both start with the least name
        let j = choose|j: int| 0 <= j < b.len() && b[j] == a[0];
        let i = choose|i: int| 0 <= i < a.len() && a[i] == b[0];
        if a[0] != b[0] {
            assert(j > 0);
            assert(i > 0);
            assert(lex_lt(b[0], b[j]));
            assert(lex_lt(a[0], a[i]));
            lemma_lex_antisym(a[0], b[0]);
        }
        let ta = a.drop_first();
        let tb = b.drop_first();
        assert(strictly_sorted(ta)) by {
            assert forall|x: int, y: int| 0 <= x < y < ta.len() implies lex_lt(#[trigger] ta[x], #[trigger] ta[y]) by {
                assert(ta[x] == a[x + 1] && ta[y] == a[y + 1]);
            }
        }
        assert(strictly_sorted(tb)) by {
            assert forall|x: int, y: int| 0 <= x < y < tb.len() implies lex_lt(#[trigger] tb[x], #[trigger] tb[y]) by {
                assert(tb[x] == b[x + 1] && tb[y] == b[y + 1]);
            }
        }
        assert forall|k: Seq<char>| ta.contains(k) <==> tb.contains(k) by {
            if ta.contains(k) {
                let x = choose|x: int| 0 <= x < ta.len() && ta[x] == k;
                assert(a[x + 1] == k);
                assert(lex_lt(a[0], a[x + 1]));
                assert(b.contains(k));
                let y = choose|y: int| 0 <= y < b.len() && b[y] == k;
                assert(y != 0);
                assert(tb[y - 1] == k);
            }
            if tb.contains(k) {
                let x = choose|x: int| 0 <= x < tb.len() && tb[x] == k;
                assert(b[x + 1] == k);
                assert(lex_lt(b[0], b[x + 1]));
                assert(a.contains(k));
                let y = choose|y: int| 0 <= y < a.len() && a[y] == k;
                assert(y != 0);
                assert(ta[y - 1] == k);
            }
        }
        lemma_sorted_unique(ta, tb);
        assert(a =~= seq![a[0]] + ta);
        assert(b =~= seq![b[0]] + tb);
    }
}

// ───────────── Executable parts ─────────────

/// The known slot names in display order.
fn slot_order_list() -> (v: Vec<&'static str>)
    ensures
        v@.map_values(|s: &str| s@) == slot_order(),
{
    let v = vec![
        "QB", "RB", "WR", "TE", "SUPER_FLEX", "SF", "Q-FLEX", "QFLEX", "REC_FLEX", "WRRB_FLEX",
        "FLEX", "K", "DEF", "DL", "LB", "DB", "IDP_FLEX", "BN", "IR", "TAXI",
    ];
    assert(v@.map_values(|s: &str| s@) =~= slot_order());
    v
}

/// Whether `k` is a known slot name.
fn is_known_slot(k: &str) -> (b: bool)
    ensures
        b == slot_order().contains(k@),
{
    let order = slot_order_list();
    let ghost ov = order@.map_values(|s: &str| s@);
    for i in 0..order.len()
        invariant
            ov == slot_order(),
            ov == order@.map_values(|s: &str| s@),
            forall|j: int| 0 <= j < i ==> ov[j] != k@,
    {
        if same_text(order[i], k) {
            assert(ov[i as int] == k@);
            return true;
        }
    }
    false
}

/// The position in `tally` of the entry named `k`.
fn tally_index(tally: &Vec<(String, usize)>, k: &str) -> (r: Option<usize>)
    ensures
        match r {
            Some(j) => j < tally.len() && tally@[j as int].0@ == k@,
            None => forall|j: int| 0 <= j < tally.len() ==> tally@[j].0@ != k@,
        },
{
    for j in 0..tally.len()
        invariant
            forall|x: int| 0 <= x < j ==> tally@[x].0@ != k@,
    {
        if same_text(tally[j].0.as_str(), k) {
            return Some(j);
        }
    }
    None
}

/// The names of a tally.
spec fn tally_names(t: Seq<(String, usize)>) -> Seq<Seq<char>> {
    t.map_values(|e: (String, usize)| e.0@)
}

/// A tally of `s`: each name once, with its number of occurrences.
spec fn is_tally_of(t: Seq<(String, usize)>, s: Seq<Seq<char>>) -> bool {
    &&& forall|x: int, y: int| 0 <= x < y < t.len() ==> #[trigger] t[x].0@ != #[trigger] t[y].0@
    &&& forall|x: int| 0 <= x < t.len() ==> (#[trigger] t[x]).1 == count_in(s, t[x].0@)
    &&& forall|k: Seq<char>| #[trigger] s.contains(k) <==> tally_names(t).contains(k)
}

/// Count the occurrences of each name in `slots`.
fn tally_slots(slots: &Vec<String>) -> (t: Vec<(String, usize)>)
    ensures
        is_tally_of(t@, views(slots@)),
{
    let mut t: Vec<(String, usize)> = Vec::new();
    for i in 0..slots.len()
        invariant
            is_tally_of(t@, views(slots@.take(i as int))),
            forall|x: int| 0 <= x < t.len() ==> (#[trigger] t@[x]).1 <= i,
    {
        let ghost before = t@;
        let ghost s_old = views(slots@.take(i as int));
        let ghost s_new = views(slots@.take(i + 1));
        let ghost k = slots@[i as int]@;
        assert(s_new =~= s_old.push(k));
        proof {
            assert forall|kk: Seq<char>| #[trigger] count_in(s_new, kk) == count_in(s_old, kk) + if k == kk { 1nat } else { 0nat } by {
                lemma_count_push(s_old, k, kk);
            }
        }
        match tally_index(&t, slots[i].as_str()) {
            Some(j) => {
                let n = t[j].1;
                let name = t[j].0.clone();
                t.set(j, (name, n + 1));
                assert forall|x: int, y: int| 0 <= x < y < t.len() implies #[trigger] t@[x].0@ != #[trigger] t@[y].0@ by {
                    assert(t@[x].0@ == before[x].0@ && t@[y].0@ == before[y].0@);
                }
                assert forall|x: int| 0 <= x < t.len() implies (#[trigger] t@[x]).1 == count_in(s_new, t@[x].0@) by {
                    assert(t@[x].0@ == before[x].0@);
                    if x != j {
                        assert(before[x].0@ != before[j as int].0@);
                    }
                }
                assert(tally_names(t@) =~= tally_names(before));
                assert forall|kk: Seq<char>| #[trigger] s_new.contains(kk) <==> tally_names(t@).contains(kk) by {
                    lemma_push_contains(s_old, k, kk);
                    assert(tally_names(before)[j as int] == k);
                    assert(s_old.contains(kk) <==> tally_names(before).contains(kk));
                }
            },
            None => {
                let name = slots[i].clone();
                t.push((name, 1));
                assert(tally_names(t@) =~= tally_names(before).push(k));
                proof {
                    assert(!s_old.contains(k)) by {
                        if s_old.contains(k) {
                            assert(tally_names(before).contains(k));
                            let y = choose|y: int| 0 <= y < tally_names(before).len() && tally_names(before)[y] == k;
                            assert(before[y].0@ == k);
                        }
                    }
                    lemma_count_absent(s_old, k);
                }
                assert forall|x: int| 0 <= x < t.len() implies (#[trigger] t@[x]).1 == count_in(s_new, t@[x].0@) by {
                    if x < before.len() {
                        assert(t@[x] == before[x]);
                    }
                }
                assert forall|kk: Seq<char>| #[trigger] s_new.contains(kk) <==> tally_names(t@).contains(kk) by {
                    lemma_push_contains(s_old, k, kk);
                    lemma_push_contains(tally_names(before), k, kk);
                    assert(s_old.contains(kk) <==> tally_names(before).contains(kk));
                }
                assert forall|x: int, y: int| 0 <= x < y < t.len() implies #[trigger] t@[x].0@ != #[trigger] t@[y].0@ by {
                    if y == before.len() {
                        assert(tally_names(before)[x] == t@[x].0@);
                    }
                }
            },
        }
    }
    assert(slots@.take(slots.len() as int) =~= slots@);
    t
}

/// Inserts `e` into the increasing listing `l`, where its name is new.
fn insert_sorted(l: &mut Vec<(String, usize)>, e: (String, usize))
    requires
        strictly_sorted(tally_names(old(l)@)),
        !tally_names(old(l)@).contains(e.0@),
    ensures
        strictly_sorted(tally_names(final(l)@)),
        forall|k: Seq<char>| #[trigger] tally_names(final(l)@).contains(k) <==> (tally_names(old(l)@).contains(k) || k == e.0@),
        forall|x: int| 0 <= x < final(l)@.len() ==> (#[trigger] final(l)@[x] == e || old(l)@.contains(final(l)@[x])),
{
    let ghost names = tally_names(l@);
    let mut p: usize = 0;
    while p < l.len() && !lex_le_str(e.0.as_str(), l[p].0.as_str())
        invariant
            p <= l.len(),
            names == tally_names(l@),
            forall|x: int| 0 <= x < p ==> lex_lt(names[x], e.0@),
            !names.contains(e.0@),
        decreases l.len() - p,
    {
        proof {
            lemma_lex_total(e.0@, names[p as int]);
            assert(names[p as int] != e.0@) by {
                assert(names.contains(names[p as int]));
            }
        }
        p = p + 1;
    }
    let ghost old_l = l@;
    let ghost k = e.0@;
    l.insert(p, e);
    let ghost nn = tally_names(l@);
    assert(nn =~= names.insert(p as int, k));
    assert forall|x: int, y: int| 0 <= x < y < nn.len() implies lex_lt(#[trigger] nn[x], #[trigger] nn[y]) by {
        if y < p {
            assert(nn[x] == names[x] && nn[y] == names[y]);
        } else if y == p {
            assert(nn[x] == names[x]);
        } else if x < p {
            // names[x] < k <= names[p] <= names[y - 1]
            assert(nn[y] == names[y - 1]);
            assert(lex_le(k, names[p as int]));
            if y - 1 > p {
                assert(lex_lt(names[p as int], names[y - 1]));
                lemma_lex_trans(k, names[p as int], names[y - 1]);
            }
            lemma_lex_trans(names[x], k, names[y - 1]);
            if names[x] == names[y - 1] {
                lemma_lex_antisym(names[x], k);
            }
        } else if x == p {
            assert(nn[y] == names[y - 1]);
            assert(lex_le(k, names[p as int]));
            if y - 1 > p {
                assert(lex_lt(names[p as int], names[y - 1]));
                lemma_lex_trans(k, names[p as int], names[y - 1]);
            }
            assert(names.contains(names[y - 1]));
        } else {
            assert(nn[x] == names[x - 1] && nn[y] == names[y - 1]);
        }
    }
    assert forall|kk: Seq<char>| #[trigger] nn.contains(kk) <==> (names.contains(kk) || kk == k) by {
        if nn.contains(kk) {
            let z = choose|z: int| 0 <= z < nn.len() && nn[z] == kk;
            if z < p {
                assert(names[z] == kk);
            } else if z > p {
                assert(names[z - 1] == kk);
            }
        }
        if names.contains(kk) {
            let z = choose|z: int| 0 <= z < names.len() && names[z] == kk;
            if z < p {
                assert(nn[z] == kk);
            } else {
                assert(nn[z + 1] == kk);
            }
        }
        if kk == k {
            assert(nn[p as int] == kk);
        }
    }
    assert forall|x: int| 0 <= x < l@.len() implies (#[trigger] l@[x] == e || old_l.contains(l@[x])) by {
        if x < p {
            assert(l@[x] == old_l[x]);
        } else if x > p {
            assert(l@[x] == old_l[x - 1]);
        }
    }
}

/// Whether any of the slots is a superflex slot.
fn any_superflex(positions: &Vec<String>) -> (b: bool)
    ensures
        b == exists|i: int| 0 <= i < positions@.len() && is_superflex_slot(#[trigger] uppercase(positions@[i]@)),
{
    for i in 0..positions.len()
        invariant
            forall|j: int| 0 <= j < i ==> !is_superflex_slot(#[trigger] uppercase(positions@[j]@)),
    {
        let u = to_upper(positions[i].as_str());
        if same_text(u.as_str(), "SUPER_FLEX") || same_text(u.as_str(), "SF")
            || same_text(u.as_str(), "Q-FLEX") || same_text(u.as_str(), "QFLEX") {
            assert(is_superflex_slot(uppercase(positions@[i as int]@)));
            return true;
        }
    }
    false
}

impl League {
    /// True if any lineup slot allows two quarterbacks (SUPER_FLEX, SF,
    /// Q-FLEX or QFLEX, in any letter case).
    pub fn is_superflex(&self) -> (b: bool)
        ensures
            b == league_is_superflex(self.roster_positions),
    {
        match &self.roster_positions {
            Some(positions) => any_superflex(positions),
            None => false,
        }
    }

    /// A compact lineup summary such as "1 QB, 2 RB, 3 WR, 1 TE, 1 FLEX,
    /// 1 K, 1 DEF, 6 BN": each slot name upper-cased and counted, known
    /// slots in display order, then any other slots in alphabetical order.
    /// "Unknown roster format" when the league lists no slots.
    pub fn format_roster_positions(&self) -> (r: String)
        ensures
            r@ == lineup_text(self.roster_positions),
    {
        let positions = match &self.roster_positions {
            Some(p) => p,
            None => {
                let mut r = String::new();
                push_str(&mut r, "Unknown roster format");
                return r;
            },
        };
        if positions.len() == 0 {
            let mut r = String::new();
            push_str(&mut r, "Unknown roster format");
            return r;
        }
        // upper-case every slot name
        let mut upper: Vec<String> = Vec::new();
        for i in 0..positions.len()
            invariant
                views(upper@) == upper_slots(positions@.take(i as int)),
                upper.len() == i,
        {
            let u = to_upper(positions[i].as_str());
            let ghost before = upper@;
            upper.push(u);
            assert(positions@.take(i + 1) =~= positions@.take(i as int).push(positions@[i as int]));
            assert(upper@ =~= before.push(u));
            assert(views(upper@) =~= views(before).push(u@));
            assert(views(upper@) =~= upper_slots(positions@.take(i + 1)));
        }
        assert(positions@.take(positions.len() as int) =~= positions@);
        let ghost slots = upper_slots(positions@);
        let tally = tally_slots(&upper);
        // known slots in display order
        let order = slot_order_list();
        let mut parts: Vec<String> = Vec::new();
        for i in 0..order.len()
            invariant
                order@.map_values(|s: &str| s@) == slot_order(),
                is_tally_of(tally@, slots),
                views(parts@) == known_parts(slot_order().take(i as int), slots),
        {
            let ghost k = order@[i as int]@;
            assert(slot_order()[i as int] == k);
            assert(slot_order().take(i + 1).drop_last() =~= slot_order().take(i as int));
            match tally_index(&tally, order[i]) {
                Some(j) => {
                    let mut p = String::new();
                    push_decimal(&mut p, tally[j].1 as u64);
                    push_str(&mut p, " ");
                    push_str(&mut p, order[i]);
                    assert(tally_names(tally@)[j as int] == k);
                    assert(slots.contains(k));
                    assert(count_in(slots, k) > 0) by {
                        let y = choose|y: int| 0 <= y < slots.len() && slots[y] == k;
                        lemma_count_positive(slots, k, y);
                    }
                    let ghost before = views(parts@);
                    parts.push(p);
                    assert(views(parts@) =~= before.push(p@));
                },
                None => {
                    assert(!tally_names(tally@).contains(k)) by {
                        if tally_names(tally@).contains(k) {
                            let y = choose|y: int| 0 <= y < tally_names(tally@).len() && tally_names(tally@)[y] == k;
                            assert(tally@[y].0@ == k);
                        }
                    }
                    proof {
                        lemma_count_absent(slots, k);
                    }
                },
            }
        }
        assert(slot_order().take(order.len() as int) =~= slot_order());
        // the other slots, alphabetically
        let mut rest: Vec<(String, usize)> = Vec::new();
        for i in 0..tally.len()
            invariant
                is_tally_of(tally@, slots),
                strictly_sorted(tally_names(rest@)),
                forall|k: Seq<char>| #[trigger] tally_names(rest@).contains(k) <==> (tally_names(tally@.take(i as int)).contains(k) && !slot_order().contains(k)),
                forall|x: int| 0 <= x < rest@.len() ==> #[trigger] tally@.contains(rest@[x]),
        {
            let ghost k = tally@[i as int].0@;
            assert(tally_names(tally@.take(i + 1)) =~= tally_names(tally@.take(i as int)).push(k));
            proof {
                assert forall|kk: Seq<char>| #[trigger] tally_names(tally@.take(i + 1)).contains(kk) <==> (tally_names(tally@.take(i as int)).contains(kk) || kk == k) by {
                    lemma_push_contains(tally_names(tally@.take(i as int)), k, kk);
                }
            }
            if !is_known_slot(tally[i].0.as_str()) {
                let e = (tally[i].0.clone(), tally[i].1);
                proof {
                    assert(!tally_names(rest@).contains(k)) by {
                        if tally_names(rest@).contains(k) {
                            assert(tally_names(tally@.take(i as int)).contains(k));
                            let y = choose|y: int| 0 <= y < i && tally_names(tally@.take(i as int))[y] == k;
                            assert(tally@[y].0@ == k);
                            assert(tally@[i as int].0@ == k);
                        }
                    }
                }
                insert_sorted(&mut rest, e);
                assert forall|x: int| 0 <= x < rest@.len() implies #[trigger] tally@.contains(rest@[x]) by {
                    if rest@[x] == e {
                        assert(tally@[i as int] == e);
                    }
                }
            }
        }
        assert(tally@.take(tally.len() as int) =~= tally@);
        let ghost rest_names = tally_names(rest@);
        proof {
            assert forall|k: Seq<char>| #[trigger] rest_names.contains(k) <==> (slots.contains(k) && !slot_order().contains(k)) by {
                assert(slots.contains(k) <==> tally_names(tally@).contains(k));
            }
            assert(is_leftover_listing(slots, rest_names));
            lemma_sorted_unique(leftover_slots(slots), rest_names);
        }
        let known_count = parts.len();
        for i in 0..rest.len()
            invariant
                is_tally_of(tally@, slots),
                rest_names == tally_names(rest@),
                forall|x: int| 0 <= x < rest@.len() ==> #[trigger] tally@.contains(rest@[x]),
                views(parts@) == known_parts(slot_order(), slots) + rest_names.take(i as int).map_values(|k: Seq<char>| count_part(count_in(slots, k), k)),
        {
            let mut p = String::new();
            push_decimal(&mut p, rest[i].1 as u64);
            push_str(&mut p, " ");
            push_str(&mut p, rest[i].0.as_str());
            proof {
                assert(tally@.contains(rest@[i as int]));
                let y = choose|y: int| 0 <= y < tally@.len() && tally@[y] == rest@[i as int];
                assert(tally@[y].1 == count_in(slots, tally@[y].0@));
            }
            let ghost before = views(parts@);
            parts.push(p);
            assert(rest_names.take(i + 1) =~= rest_names.take(i as int).push(rest_names[i as int]));
            assert(views(parts@) =~= before.push(p@));
        }
        assert(rest_names.take(rest.len() as int) =~= rest_names);
        assert(views(parts@) =~= known_parts(slot_order(), slots) + leftover_parts(slots));
        join(&parts, ", ")
    }

    /// A one-line league summary for prompts, e.g. "10-team superflex
    /// dynasty league. Lineup: 1 QB, ... Scoring: full PPR." The scoring
    /// highlights are given by the caller (they come from fractional
    /// scoring values); `extra_rules` is appended verbatim when non-empty.
    pub fn format_summary(&self, scoring_highlights: Option<&str>, extra_rules: Option<&str>) -> (r: String)
        ensures
            r@ == summary_text(
                *self,
                match scoring_highlights { Some(h) => Some(h@), None => None },
                match extra_rules { Some(e) => Some(e@), None => None },
            ),
    {
        let teams: u32 = match self.total_rosters {
            Some(n) => n,
            None => match &self.settings {
                Some(s) => match s.num_teams { Some(n) => n, None => 0 },
                None => 0,
            },
        };
        let kind: &str = match &self.settings {
            Some(s) => match s.league_type {
                Some(t) => if t == 2 {
                    "dynasty"
                } else if t == 1 {
                    "keeper"
                } else if t == 0 {
                    "redraft"
                } else {
                    "fantasy"
                },
                None => "fantasy",
            },
            None => "fantasy",
        };
        let mut r = String::new();
        if teams > 0 {
            push_decimal(&mut r, teams as u64);
            push_str(&mut r, "-team");
            if self.is_superflex() {
                push_str(&mut r, " superflex");
            }
            push_str(&mut r, " ");
            push_str(&mut r, kind);
            push_str(&mut r, " league.");
        } else {
            push_str(&mut r, kind);
            push_str(&mut r, " league.");
        }
        proof {
            reveal_strlit("");
        }
        let lineup = self.format_roster_positions();
        if !lineup.as_str().is_empty() && !same_text(lineup.as_str(), "Unknown roster format") {
            push_str(&mut r, " Lineup: ");
            push_str(&mut r, lineup.as_str());
            push_str(&mut r, ".");
        }
        if let Some(h) = scoring_highlights {
            push_str(&mut r, " Scoring: ");
            push_str(&mut r, h);
            push_str(&mut r, ".");
        }
        if let Some(notes) = extra_rules {
            if !notes.is_empty() {
                push_str(&mut r, " Additional notes: ");
                push_str(&mut r, notes);
            }
        }
        r
    }
}

proof fn lemma_push_contains(s: Seq<Seq<char>>, x: Seq<char>, k: Seq<char>)
    ensures
        s.push(x).contains(k) <==> (s.contains(k) || x == k),
{
    if s.push(x).contains(k) {
        let i = choose|i: int| 0 <= i < s.push(x).len() && s.push(x)[i] == k;
        if i < s.len() {
            assert(s[i] == k);
        }
    }
    if s.contains(k) {
        let i = choose|i: int| 0 <= i < s.len() && s[i] == k;
        assert(s.push(x)[i] == k);
    }
    if x == k {
        assert(s.push(x)[s.len() as int] == k);
    }
}

proof fn lemma_count_positive(s: Seq<Seq<char>>, k: Seq<char>, y: int)
    requires
        0 <= y < s.len(),
        s[y] == k,
    ensures
        count_in(s, k) > 0,
    decreases s.len(),
{
    if y < s.len() - 1 {
        assert(s.drop_last()[y] == k);
        lemma_count_positive(s.drop_last(), k, y);
    }
}

} // verus!
