use vstd::prelude::*;
use vstd::string::*;

use crate::text::{same_text, views};

verus! {

/// How many (question, answer) exchanges are remembered per user.
pub const MAX_RECENT_EXCHANGES: usize = 3;

/// The trades that have already been reviewed.
#[derive(Debug)]
pub struct ReviewState {
    reviewed_ids: Vec<String>,
}

/// The chat messages already answered, and a short memory of recent
/// exchanges per user for follow-up questions.
#[derive(Debug)]
pub struct ChatState {
    responded_ids: Vec<String>,
    recent_exchanges: Vec<(String, Vec<(String, String)>)>,
}

/// The ids listed in `ids`, as a set of texts.
pub open spec fn id_set(ids: Seq<String>) -> Set<Seq<char>> {
    Set::new(|k: Seq<char>| views(ids).contains(k))
}

/// The views of a list of exchanges.
pub open spec fn exchange_views(x: Seq<(String, String)>) -> Seq<(Seq<char>, Seq<char>)> {
    x.map_values(|e: (String, String)| (e.0@, e.1@))
}

/// The exchanges remembered under the first entry for `user`.
pub open spec fn exchanges_lookup(
    entries: Seq<(String, Vec<(String, String)>)>,
    user: Seq<char>,
) -> Seq<(Seq<char>, Seq<char>)>
    decreases entries.len(),
{
    if entries.len() == 0 {
        Seq::empty()
    } else if entries[0].0@ == user {
        exchange_views(entries[0].1@)
    } else {
        exchanges_lookup(entries.drop_first(), user)
    }
}

/// The window of exchanges after recording `x`: the oldest is dropped
/// when the window is already full.
pub open spec fn window_after(old: Seq<(Seq<char>, Seq<char>)>, x: (Seq<char>, Seq<char>)) -> Seq<(Seq<char>, Seq<char>)> {
    if old.len() >= MAX_RECENT_EXCHANGES {
        old.drop_first().push(x)
    } else {
        old.push(x)
    }
}

/// Whether `ids` holds `id`.
fn holds_id(ids: &Vec<String>, id: &str) -> (b: bool)
    ensures
        b == views(ids@).contains(id@),
{
    for i in 0..ids.len()
        invariant
            forall|j: int| 0 <= j < i ==> ids@[j]@ != id@,
    {
        if same_text(ids[i].as_str(), id) {
            assert(views(ids@)[i as int] == id@);
            return true;
        }
    }
    assert forall|j: int| 0 <= j < views(ids@).len() implies views(ids@)[j] != id@ by {
        assert(views(ids@)[j] == ids@[j]@);
    }
    false
}

/// Adds `id` to `ids` unless it is there already.
fn add_id(ids: &mut Vec<String>, id: &str)
    ensures
        id_set(final(ids)@) == id_set(old(ids)@).insert(id@),
{
    if !holds_id(ids, id) {
        let ghost before = ids@;
        ids.push(id.to_string());
        assert(views(ids@) =~= views(before).push(id@));
        assert(id_set(ids@) =~= id_set(before).insert(id@)) by {
            assert forall|k: Seq<char>| views(ids@).contains(k) <==> (views(before).contains(k) || k == id@) by {
                if views(ids@).contains(k) {
                    let j = choose|j: int| 0 <= j < views(ids@).len() && views(ids@)[j] == k;
                    if j < before.len() {
                        assert(views(before)[j] == k);
                    }
                }
                if views(before).contains(k) {
                    let j = choose|j: int| 0 <= j < views(before).len() && views(before)[j] == k;
                    assert(views(ids@)[j] == k);
                }
                if k == id@ {
                    assert(views(ids@)[before.len() as int] == k);
                }
            }
        }
    } else {
        assert(id_set(ids@) =~= id_set(ids@).insert(id@));
    }
}

impl ReviewState {
    /// The ids of the reviewed trades.
    pub closed spec fn reviewed(&self) -> Set<Seq<char>> {
        id_set(self.reviewed_ids@)
    }

    /// A state that knows the given trades as reviewed.
    pub fn with_reviewed(ids: Vec<String>) -> (s: Self)
        ensures
            s.reviewed() == id_set(ids@),
    {
        ReviewState { reviewed_ids: ids }
    }

    /// The ids of the reviewed trades, each listed once per time it was given.
    pub fn reviewed_ids(&self) -> (ids: &Vec<String>)
        ensures
            id_set(ids@) == self.reviewed(),
    {
        &self.reviewed_ids
    }

    /// Whether the trade has been reviewed.
    pub fn is_reviewed(&self, transaction_id: &str) -> (b: bool)
        ensures
            b == self.reviewed().contains(transaction_id@),
    {
        holds_id(&self.reviewed_ids, transaction_id)
    }

    /// Records the trade as reviewed.
    pub fn mark_reviewed(&mut self, transaction_id: &str)
        ensures
            final(self).reviewed() == old(self).reviewed().insert(transaction_id@),
    {
        add_id(&mut self.reviewed_ids, transaction_id);
    }
}

impl ChatState {
    /// The ids of the messages already answered (or deliberately skipped).
    pub closed spec fn responded(&self) -> Set<Seq<char>> {
        id_set(self.responded_ids@)
    }

    /// The recent (question, answer) exchanges with `user`, oldest first.
    pub closed spec fn exchanges(&self, user: Seq<char>) -> Seq<(Seq<char>, Seq<char>)> {
        exchanges_lookup(self.recent_exchanges@, user)
    }

    /// No user has more than the remembered number of exchanges.
    pub closed spec fn well_formed(&self) -> bool {
        forall|j: int| 0 <= j < self.recent_exchanges@.len() ==> (#[trigger] self.recent_exchanges@[j]).1@.len() <= MAX_RECENT_EXCHANGES
    }

    /// A state that knows the given messages as answered and remembers no
    /// exchanges.
    pub fn with_responded(ids: Vec<String>) -> (s: Self)
        ensures
            s.responded() == id_set(ids@),
            s.well_formed(),
            forall|u: Seq<char>| s.exchanges(u).len() == 0,
    {
        ChatState { responded_ids: ids, recent_exchanges: Vec::new() }
    }

    /// The ids of the answered messages.
    pub fn responded_ids(&self) -> (ids: &Vec<String>)
        ensures
            id_set(ids@) == self.responded(),
    {
        &self.responded_ids
    }

    /// Whether the message has been answered.
    pub fn has_responded(&self, message_id: &str) -> (b: bool)
        ensures
            b == self.responded().contains(message_id@),
    {
        holds_id(&self.responded_ids, message_id)
    }

    /// Records the message as answered.
    pub fn mark_responded(&mut self, message_id: &str)
        ensures
            final(self).responded() == old(self).responded().insert(message_id@),
            forall|u: Seq<char>| final(self).exchanges(u) == old(self).exchanges(u),
            final(self).well_formed() == old(self).well_formed(),
    {
        add_id(&mut self.responded_ids, message_id);
    }

    /// Remembers an exchange with `user_id`; only the most recent ones are
    /// kept, the oldest being dropped when the window is full.
    pub fn add_exchange(&mut self, user_id: &str, question: String, answer: String)
        requires
            old(self).well_formed(),
        ensures
            final(self).well_formed(),
            final(self).exchanges(user_id@) == window_after(old(self).exchanges(user_id@), (question@, answer@)),
            forall|u: Seq<char>| u != user_id@ ==> final(self).exchanges(u) == old(self).exchanges(u),
            final(self).responded() == old(self).responded(),
    {
        let ghost old_entries = self.recent_exchanges@;
        let mut i: usize = 0;
        assert(old_entries.skip(0) =~= old_entries);
        while i < self.recent_exchanges.len()
            invariant
                self.recent_exchanges@ == old_entries,
                old(self).recent_exchanges@ == old_entries,
                old(self).responded_ids@ == self.responded_ids@,
                i <= old_entries.len(),
                forall|j: int| 0 <= j < i ==> old_entries[j].0@ != user_id@,
                forall|j: int| 0 <= j < old_entries.len() ==> (#[trigger] old_entries[j]).1@.len() <= MAX_RECENT_EXCHANGES,
            decreases old_entries.len() - i,
        {
            if same_text(self.recent_exchanges[i].0.as_str(), user_id) {
                let ghost before = self.recent_exchanges@[i as int].1@;
                let old_list = &self.recent_exchanges[i].1;
                let start: usize = if old_list.len() >= MAX_RECENT_EXCHANGES { 1 } else { 0 };
                let mut list: Vec<(String, String)> = Vec::new();
                let mut k = start;
                while k < old_list.len()
                    invariant
                        start <= k <= old_list.len(),
                        old_list@ == before,
                        exchange_views(list@) == exchange_views(before.subrange(start as int, k as int)),
                    decreases old_list.len() - k,
                {
                    let q = old_list[k].0.clone();
                    let a = old_list[k].1.clone();
                    let ghost prev = list@;
                    list.push((q, a));
                    assert(before.subrange(start as int, k + 1) =~= before.subrange(start as int, k as int).push(before[k as int]));
                    assert(exchange_views(list@) =~= exchange_views(prev).push((q@, a@)));
                    assert(exchange_views(before.subrange(start as int, k + 1)) =~= exchange_views(before.subrange(start as int, k as int)).push((q@, a@)));
                    k = k + 1;
                }
                proof {
                    if start == 1 {
                        assert(exchange_views(before.subrange(1, before.len() as int)) =~= exchange_views(before).drop_first());
                    } else {
                        assert(before.subrange(0, before.len() as int) =~= before);
                    }
                }
                let ghost mid = list@;
                list.push((question, answer));
                let name = self.recent_exchanges[i].0.clone();
                let ghost new_entries = old_entries.update(i as int, (name, list));
                proof {
                    assert(exchange_views(list@) =~= exchange_views(mid).push((question@, answer@)));
                    assert(exchange_views(list@) =~= window_after(exchange_views(before), (question@, answer@)));
                    lemma_exchanges_update(old_entries, i as int, name, list);
                }
                self.recent_exchanges.set(i, (name, list));
                assert(self.recent_exchanges@ == new_entries);
                assert forall|j: int| 0 <= j < self.recent_exchanges@.len() implies (#[trigger] self.recent_exchanges@[j]).1@.len() <= MAX_RECENT_EXCHANGES by {
                    if j != i {
                        assert(self.recent_exchanges@[j] == old_entries[j]);
                    }
                }
                assert(exchanges_lookup(old_entries, user_id@) == exchange_views(before)) by {
                    lemma_exchanges_found(old_entries, i as int, user_id@);
                }
                return;
            }
            i = i + 1;
        }
        let mut list: Vec<(String, String)> = Vec::new();
        list.push((question, answer));
        let key = user_id.to_string();
        proof {
            lemma_exchanges_absent(old_entries, user_id@);
            lemma_exchanges_push(old_entries, key, list);
            assert(exchange_views(list@) =~= seq![(question@, answer@)]);
        }
        self.recent_exchanges.push((key, list));
        assert forall|j: int| 0 <= j < self.recent_exchanges@.len() implies (#[trigger] self.recent_exchanges@[j]).1@.len() <= MAX_RECENT_EXCHANGES by {
            if j < old_entries.len() {
                assert(self.recent_exchanges@[j] == old_entries[j]);
            }
        }
    }

    /// The recent exchanges with `user_id`, oldest first.
    pub fn get_exchanges(&self, user_id: &str) -> (r: Vec<(&str, &str)>)
        ensures
            r@.map_values(|e: (&str, &str)| (e.0@, e.1@)) == self.exchanges(user_id@),
    {
        let mut i: usize = 0;
        assert(self.recent_exchanges@.skip(0) =~= self.recent_exchanges@);
        while i < self.recent_exchanges.len()
            invariant
                i <= self.recent_exchanges@.len(),
                exchanges_lookup(self.recent_exchanges@, user_id@) == exchanges_lookup(self.recent_exchanges@.skip(i as int), user_id@),
            decreases self.recent_exchanges@.len() - i,
        {
            assert(self.recent_exchanges@.skip(i as int).drop_first() =~= self.recent_exchanges@.skip(i + 1));
            if same_text(self.recent_exchanges[i].0.as_str(), user_id) {
                let list = &self.recent_exchanges[i].1;
                let mut r: Vec<(&str, &str)> = Vec::new();
                for j in 0..list.len()
                    invariant
                        r@.map_values(|e: (&str, &str)| (e.0@, e.1@)) == exchange_views(list@.take(j as int)),
                {
                    let ghost before = r@;
                    let e = (list[j].0.as_str(), list[j].1.as_str());
                    r.push(e);
                    assert(r@ =~= before.push(e));
                    assert(list@.take(j + 1) =~= list@.take(j as int).push(list@[j as int]));
                    assert(exchange_views(list@.take(j + 1)) =~= exchange_views(list@.take(j as int)).push((list@[j as int].0@, list@[j as int].1@)));
                    assert(r@.map_values(|e: (&str, &str)| (e.0@, e.1@)) =~= before.map_values(|e: (&str, &str)| (e.0@, e.1@)).push((e.0@, e.1@)));
                    assert(r@.map_values(|e: (&str, &str)| (e.0@, e.1@)) =~= exchange_views(list@.take(j + 1)));
                }
                assert(list@.take(list.len() as int) =~= list@);
                return r;
            }
            i = i + 1;
        }
        let r: Vec<(&str, &str)> = Vec::new();
        assert(r@.map_values(|e: (&str, &str)| (e.0@, e.1@)) =~= Seq::<(Seq<char>, Seq<char>)>::empty());
        r
    }
}

proof fn lemma_exchanges_found(
    entries: Seq<(String, Vec<(String, String)>)>,
    i: int,
    user: Seq<char>,
)
    requires
        0 <= i < entries.len(),
        entries[i].0@ == user,
        forall|j: int| 0 <= j < i ==> entries[j].0@ != user,
    ensures
        exchanges_lookup(entries, user) == exchange_views(entries[i].1@),
    decreases i,
{
    if i > 0 {
        lemma_exchanges_found(entries.drop_first(), i - 1, user);
    }
}

proof fn lemma_exchanges_update(
    entries: Seq<(String, Vec<(String, String)>)>,
    i: int,
    name: String,
    list: Vec<(String, String)>,
)
    requires
        0 <= i < entries.len(),
        entries[i].0@ == name@,
        forall|j: int| 0 <= j < i ==> entries[j].0@ != name@,
    ensures
        exchanges_lookup(entries.update(i, (name, list)), name@) == exchange_views(list@),
        forall|u: Seq<char>| u != name@ ==> exchanges_lookup(entries.update(i, (name, list)), u)
            == exchanges_lookup(entries, u),
    decreases i,
{
    let e2 = entries.update(i, (name, list));
    if i > 0 {
        assert(e2.drop_first() =~= entries.drop_first().update(i - 1, (name, list)));
        lemma_exchanges_update(entries.drop_first(), i - 1, name, list);
        assert(e2[0] == entries[0]);
    }
    assert forall|u: Seq<char>| u != name@ implies exchanges_lookup(e2, u) == exchanges_lookup(entries, u) by {
        if i > 0 {
            assert(e2[0] == entries[0]);
            assert(exchanges_lookup(e2.drop_first(), u) == exchanges_lookup(entries.drop_first(), u));
        } else {
            assert(e2.drop_first() =~= entries.drop_first());
            assert(e2[0].0@ == name@);
        }
    }
}

proof fn lemma_exchanges_absent(entries: Seq<(String, Vec<(String, String)>)>, user: Seq<char>)
    requires
        forall|j: int| 0 <= j < entries.len() ==> entries[j].0@ != user,
    ensures
        exchanges_lookup(entries, user) == Seq::<(Seq<char>, Seq<char>)>::empty(),
    decreases entries.len(),
{
    if entries.len() > 0 {
        lemma_exchanges_absent(entries.drop_first(), user);
    }
}

proof fn lemma_exchanges_push(
    entries: Seq<(String, Vec<(String, String)>)>,
    name: String,
    list: Vec<(String, String)>,
)
    requires
        forall|j: int| 0 <= j < entries.len() ==> entries[j].0@ != name@,
    ensures
        exchanges_lookup(entries.push((name, list)), name@) == exchange_views(list@),
        forall|u: Seq<char>| u != name@ ==> exchanges_lookup(entries.push((name, list)), u)
            == exchanges_lookup(entries, u),
    decreases entries.len(),
{
    let e2 = entries.push((name, list));
    if entries.len() > 0 {
        assert(e2.drop_first() =~= entries.drop_first().push((name, list)));
        lemma_exchanges_push(entries.drop_first(), name, list);
        assert(e2[0] == entries[0]);
    } else {
        assert(e2.drop_first() =~= Seq::<(String, Vec<(String, String)>)>::empty());
    }
    assert forall|u: Seq<char>| u != name@ implies exchanges_lookup(e2, u) == exchanges_lookup(entries, u) by {
        if entries.len() > 0 {
            assert(e2[0] == entries[0]);
            assert(exchanges_lookup(e2.drop_first(), u) == exchanges_lookup(entries.drop_first(), u));
        } else {
            assert(e2[0].0@ == name@);
            assert(exchanges_lookup(e2.drop_first(), u) == Seq::<(Seq<char>, Seq<char>)>::empty());
        }
    }
}

} // verus!
