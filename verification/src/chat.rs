use vstd::prelude::*;
use vstd::string::*;

use crate::order::{is_ranking, rank_desc};
use crate::sleeper::{
    find_user, points_hundredths, record_text, user_by_id, League, NflState, Roster, User,
};
use crate::state::{window_after, ChatState};
use crate::text::{
    chars_of, contains, decimal, has_substring, join, joined, lowercase, push_decimal, push_str, same_text,
    str_or, string_of, text_or, to_lower, trim, trimmed, views,
};

verus! {

// ───────────── Mentions ─────────────

/// The message mentions the bot: its lower-cased text contains the
/// lower-cased bot name, with or without a leading '@'.
pub open spec fn mentions(text: Seq<char>, bot: Seq<char>) -> bool {
    has_substring(lowercase(text), "@"@ + lowercase(bot)) || has_substring(lowercase(text), lowercase(bot))
}

/// The code of a character with ASCII upper-case letters taken to lower
/// case.
pub open spec fn folded_code(c: char) -> u32 {
    if 'A' <= c && c <= 'Z' {
        (c as u32 + 32) as u32
    } else {
        c as u32
    }
}

/// Two texts equal up to ASCII case.
pub open spec fn same_ignoring_case(a: Seq<char>, b: Seq<char>) -> bool {
    &&& a.len() == b.len()
    &&& forall|k: int| 0 <= k < a.len() ==> #[trigger] folded_code(a[k]) == folded_code(b[k])
}

/// `pat` occurs in `s` at `i`, up to ASCII case.
pub open spec fn occurs_ignoring_case(s: Seq<char>, pat: Seq<char>, i: int) -> bool {
    &&& 0 <= i
    &&& i + pat.len() <= s.len()
    &&& same_ignoring_case(s.subrange(i, i + pat.len()), pat)
}

/// `s` with every occurrence of a non-empty `pat`, up to ASCII case,
/// removed, left to right.
pub open spec fn removed_ignoring_case(s: Seq<char>, pat: Seq<char>) -> Seq<char>
    decreases s.len(),
{
    if s.len() == 0 {
        Seq::empty()
    } else if pat.len() > 0 && occurs_ignoring_case(s, pat, 0) {
        removed_ignoring_case(s.skip(pat.len() as int), pat)
    } else {
        seq![s[0]] + removed_ignoring_case(s.drop_first(), pat)
    }
}

/// The question left once "@bot" and then "bot" are removed, ignoring
/// case, and the rest is trimmed.
pub open spec fn stripped_question(text: Seq<char>, bot: Seq<char>) -> Seq<char> {
    trimmed(removed_ignoring_case(removed_ignoring_case(text, "@"@ + bot), bot))
}

/// Whether a message mentions the bot's user name (case-insensitively).
pub fn is_mention(text: &str, bot_username: &str) -> (b: bool)
    ensures
        b == mentions(text@, bot_username@),
{
    let lower = to_lower(text);
    let bot_lower = to_lower(bot_username);
    let mut at = String::new();
    push_str(&mut at, "@");
    push_str(&mut at, bot_lower.as_str());
    contains(lower.as_str(), at.as_str()) || contains(lower.as_str(), bot_lower.as_str())
}

/// The code of `c` with ASCII upper-case letters taken to lower case.
fn folded(c: char) -> (r: u32)
    ensures
        r == folded_code(c),
{
    if 'A' <= c && c <= 'Z' {
        c as u32 + 32
    } else {
        c as u32
    }
}

/// Whether `pat` occurs in `s` at `i`, up to ASCII case.
fn occurs_here_ignoring_case(s: &Vec<char>, pat: &Vec<char>, i: usize) -> (b: bool)
    requires
        i <= s.len(),
    ensures
        b == occurs_ignoring_case(s@, pat@, i as int),
{
    if pat.len() > s.len() - i {
        return false;
    }
    for k in 0..pat.len()
        invariant
            i + pat.len() <= s.len(),
            forall|j: int| 0 <= j < k ==> folded_code(s@[i + j]) == folded_code(pat@[j]),
    {
        if folded(s[i + k]) != folded(pat[k]) {
            assert(s@.subrange(i as int, i + pat.len())[k as int] == s@[i + k]);
            return false;
        }
    }
    assert forall|j: int| 0 <= j < pat.len() implies #[trigger] folded_code(s@.subrange(i as int, i + pat.len())[j])
        == folded_code(pat@[j]) by {
        assert(s@.subrange(i as int, i + pat.len())[j] == s@[i + j]);
    }
    true
}

/// `s` with every occurrence of `pat` removed, ignoring case.
fn remove_ignoring_case(s: &Vec<char>, pat: &Vec<char>) -> (r: Vec<char>)
    ensures
        r@ == removed_ignoring_case(s@, pat@),
{
    let mut out: Vec<char> = Vec::new();
    let mut i: usize = 0;
    assert(s@.skip(0) =~= s@);
    while i < s.len()
        invariant
            i <= s.len(),
            removed_ignoring_case(s@, pat@) == out@ + removed_ignoring_case(s@.skip(i as int), pat@),
        decreases s.len() - i,
    {
        let ghost rest = s@.skip(i as int);
        if pat.len() > 0 && occurs_here_ignoring_case(s, pat, i) {
            assert(rest.subrange(0, pat.len() as int) =~= s@.subrange(i as int, i + pat.len()));
            assert(rest.skip(pat.len() as int) =~= s@.skip(i + pat.len()));
            i = i + pat.len();
        } else {
            assert(!(pat.len() > 0 && occurs_ignoring_case(rest, pat@, 0))) by {
                if pat.len() > 0 && occurs_ignoring_case(rest, pat@, 0) {
                    assert(rest.subrange(0, pat.len() as int) =~= s@.subrange(i as int, i + pat.len()));
                }
            }
            assert(rest.drop_first() =~= s@.skip(i + 1));
            assert(rest[0] == s@[i as int]);
            let ghost before = out@;
            out.push(s[i]);
            assert(out@ + removed_ignoring_case(s@.skip(i + 1), pat@) =~= before + (seq![s@[i as int]]
                + removed_ignoring_case(s@.skip(i + 1), pat@)));
            i = i + 1;
        }
    }
    assert(s@.skip(i as int) =~= Seq::<char>::empty());
    assert(out@ + Seq::<char>::empty() =~= out@);
    out
}

/// The message with the bot mention removed, ignoring case: the question
/// itself.
pub fn strip_mention(text: &str, bot_username: &str) -> (r: String)
    ensures
        r@ == stripped_question(text@, bot_username@),
{
    let mut at = String::new();
    push_str(&mut at, "@");
    push_str(&mut at, bot_username);
    let t = chars_of(text);
    let at_chars = chars_of(at.as_str());
    let bot_chars = chars_of(bot_username);
    let once = remove_ignoring_case(&t, &at_chars);
    let twice = remove_ignoring_case(&once, &bot_chars);
    let joined_back = string_of(&twice);
    trim(joined_back.as_str())
}

// ───────────── Lightweight league context ─────────────

/// A roster in the compact standings: owner display name and record,
/// ranked by wins and then points.
#[derive(Debug)]
pub struct StandingEntry {
    pub label: String,
    pub wins: u32,
    pub points_hundredths: u128,
}

/// The compact standings label "Name W-L" of a roster with an owner.
pub open spec fn standing_label(users: Seq<User>, r: Roster) -> Seq<char> {
    let owner = r.owner_id.unwrap();
    let display = match user_by_id(users, owner@) {
        Some(u) => text_or(u.display_name, "Unknown"@),
        None => "Unknown"@,
    };
    let record = match r.settings {
        Some(s) => record_text(s),
        None => "0-0"@,
    };
    display + " "@ + record
}

/// The ranking key of a roster: wins, then points in hundredths.
pub open spec fn standing_key(r: Roster) -> (u64, u128) {
    match r.settings {
        Some(s) => (s.wins.unwrap_or(0) as u64, points_hundredths(s.fpts, s.fpts_decimal) as u128),
        None => (0, 0),
    }
}

/// The rosters that have an owner, in their listed order.
pub open spec fn owned_rosters(rosters: Seq<Roster>) -> Seq<Roster>
    decreases rosters.len(),
{
    if rosters.len() == 0 {
        Seq::empty()
    } else {
        let rest = owned_rosters(rosters.drop_last());
        if rosters.last().owner_id is Some {
            rest.push(rosters.last())
        } else {
            rest
        }
    }
}

/// "1. A, 2. B, ..." for the labels taken in the ranking's order.
pub open spec fn numbered(labels: Seq<Seq<char>>, order: Seq<usize>) -> Seq<Seq<char>> {
    Seq::new(order.len(), |t: int| decimal((t + 1) as nat) + ". "@ + labels[order[t] as int])
}

/// The league type label used in the compact context.
pub open spec fn context_league_type(l: League) -> Seq<char> {
    match l.settings {
        Some(s) => match s.league_type {
            Some(t) => if t == 0 {
                "Redraft"@
            } else if t == 1 {
                "Keeper"@
            } else if t == 2 {
                "Dynasty"@
            } else {
                "Unknown"@
            },
            None => "Unknown"@,
        },
        None => "Unknown"@,
    }
}

/// The scoring label: "ppr" and "std" are named, anything else is half PPR.
pub open spec fn scoring_label(scoring: Seq<char>) -> Seq<char> {
    if scoring == "ppr"@ {
        "Full PPR"@
    } else if scoring == "std"@ {
        "Standard (non-PPR)"@
    } else {
        "Half PPR"@
    }
}

/// The compact context text for a given standings order.
pub open spec fn context_text(
    l: League,
    nfl: NflState,
    scoring: Seq<char>,
    labels: Seq<Seq<char>>,
    order: Seq<usize>,
) -> Seq<char> {
    "League: "@ + text_or(l.name, "Unknown League"@) + " ("@ + context_league_type(l) + ", "@
        + decimal(l.total_rosters.unwrap_or(0) as nat) + " teams, "@ + scoring_label(scoring)
        + ")\nNFL "@ + nfl.season@ + " \u{2014} Week "@ + decimal(nfl.week as nat) + "\nStandings: "@
        + joined(numbered(labels, order), ", "@)
}

/// The label of one roster with an owner.
fn standing_entry(users: &[User], r: &Roster) -> (e: StandingEntry)
    requires
        r.owner_id is Some,
    ensures
        e.label@ == standing_label(users@, *r),
        (e.wins as u64, e.points_hundredths) == standing_key(*r),
{
    let owner = match &r.owner_id {
        Some(o) => o,
        None => unreached(),
    };
    let display = match find_user(users, owner.as_str()) {
        Some(u) => str_or(&u.display_name, "Unknown"),
        None => "Unknown",
    };
    let mut label = String::new();
    push_str(&mut label, display);
    push_str(&mut label, " ");
    let (wins, points) = match &r.settings {
        Some(s) => {
            let rec = s.record();
            push_str(&mut label, rec.as_str());
            (match s.wins { Some(w) => w, None => 0 }, s.points_for_hundredths())
        },
        None => {
            push_str(&mut label, "0-0");
            (0, 0)
        },
    };
    StandingEntry { label, wins, points_hundredths: points }
}

/// The rosters with an owner, as standings entries, in roster order.
pub fn standing_entries(users: &[User], rosters: &[Roster]) -> (v: Vec<StandingEntry>)
    ensures
        v@.len() == owned_rosters(rosters@).len(),
        forall|t: int| 0 <= t < v@.len() ==> (#[trigger] v@[t]).label@ == standing_label(users@, owned_rosters(rosters@)[t])
            && (v@[t].wins as u64, v@[t].points_hundredths) == standing_key(owned_rosters(rosters@)[t]),
{
    let mut v: Vec<StandingEntry> = Vec::new();
    for i in 0..rosters.len()
        invariant
            v@.len() == owned_rosters(rosters@.take(i as int)).len(),
            forall|t: int| 0 <= t < v@.len() ==> (#[trigger] v@[t]).label@ == standing_label(users@, owned_rosters(rosters@.take(i as int))[t])
                && (v@[t].wins as u64, v@[t].points_hundredths) == standing_key(owned_rosters(rosters@.take(i as int))[t]),
    {
        assert(rosters@.take(i + 1).drop_last() =~= rosters@.take(i as int));
        assert(rosters@.take(i + 1).last() == rosters@[i as int]);
        if rosters[i].owner_id.is_some() {
            let e = standing_entry(users, &rosters[i]);
            v.push(e);
        }
    }
    assert(rosters@.take(rosters.len() as int) =~= rosters@);
    v
}

/// A short baseline description of the league for the chat assistant:
/// name, type, team count and scoring format, the NFL week, and compact
/// standings ranked by wins and then points (ties keep roster order).
pub fn build_lightweight_context(
    league: &League,
    users: &[User],
    rosters: &[Roster],
    nfl_state: &NflState,
    scoring: &str,
) -> (r: String)
    ensures
        ({
            let owned = owned_rosters(rosters@);
            let labels = owned.map_values(|x: Roster| standing_label(users@, x));
            let keys = owned.map_values(|x: Roster| standing_key(x));
            exists|order: Seq<usize>| is_ranking(keys, order) && r@ == context_text(*league, *nfl_state, scoring@, labels, order)
        }),
{
    let ghost owned = owned_rosters(rosters@);
    let ghost labels = owned.map_values(|x: Roster| standing_label(users@, x));
    let ghost keyspec = owned.map_values(|x: Roster| standing_key(x));
    let entries = standing_entries(users, rosters);
    let mut keys: Vec<(u64, u128)> = Vec::new();
    for i in 0..entries.len()
        invariant
            keys@.len() == i,
            forall|t: int| 0 <= t < i ==> keys@[t] == (entries@[t].wins as u64, entries@[t].points_hundredths),
    {
        keys.push((entries[i].wins as u64, entries[i].points_hundredths));
    }
    assert(keys@ =~= keyspec);
    let order = rank_desc(&keys);
    let mut lines: Vec<String> = Vec::new();
    for t in 0..order.len()
        invariant
            is_ranking(keyspec, order@),
            entries@.len() == owned.len(),
            keyspec.len() == owned.len(),
            labels.len() == owned.len(),
            forall|x: int| 0 <= x < entries@.len() ==> (#[trigger] entries@[x]).label@ == labels[x],
            views(lines@) == numbered(labels, order@).take(t as int),
    {
        let mut line = String::new();
        push_decimal(&mut line, (t as u64) + 1);
        push_str(&mut line, ". ");
        push_str(&mut line, entries[order[t]].label.as_str());
        let ghost before = views(lines@);
        lines.push(line);
        assert(views(lines@) =~= before.push(line@));
        assert(numbered(labels, order@).take(t + 1) =~= numbered(labels, order@).take(t as int).push(numbered(labels, order@)[t as int]));
    }
    assert(numbered(labels, order@).take(order.len() as int) =~= numbered(labels, order@));
    let standings = join(&lines, ", ");
    let league_type: &str = match &league.settings {
        Some(s) => match s.league_type {
            Some(t) => if t == 0 { "Redraft" } else if t == 1 { "Keeper" } else if t == 2 { "Dynasty" } else { "Unknown" },
            None => "Unknown",
        },
        None => "Unknown",
    };
    let scoring_fmt: &str = if same_text(scoring, "ppr") {
        "Full PPR"
    } else if same_text(scoring, "std") {
        "Standard (non-PPR)"
    } else {
        "Half PPR"
    };
    let mut r = String::new();
    push_str(&mut r, "League: ");
    push_str(&mut r, str_or(&league.name, "Unknown League"));
    push_str(&mut r, " (");
    push_str(&mut r, league_type);
    push_str(&mut r, ", ");
    push_decimal(&mut r, match league.total_rosters { Some(n) => n as u64, None => 0 });
    push_str(&mut r, " teams, ");
    push_str(&mut r, scoring_fmt);
    push_str(&mut r, ")\nNFL ");
    push_str(&mut r, nfl_state.season.as_str());
    push_str(&mut r, " \u{2014} Week ");
    push_decimal(&mut r, nfl_state.week as u64);
    push_str(&mut r, "\nStandings: ");
    push_str(&mut r, standings.as_str());
    r
}

// ───────────── Answering chat messages ─────────────

/// A league chat message.
#[derive(Debug)]
pub struct ChatMessage {
    pub message_id: Option<String>,
    pub author_id: Option<String>,
    pub author_display_name: Option<String>,
    pub author_is_bot: Option<bool>,
    pub text: Option<String>,
    pub created: Option<i64>,
}

/// What to do with one fetched chat message.
#[derive(Debug)]
pub enum MessageAction {
    /// Leave it; it may be looked at again on the next poll.
    Ignore,
    /// Record it as handled without answering (bot messages, own messages).
    MarkHandled { message_id: String },
    /// Answer the question, then record the message as handled.
    Answer { message_id: String, author: String, question: String },
}

/// The action for a message, given what has been answered already, the
/// bot's own user id and its user name.
pub open spec fn message_action_spec(
    msg: ChatMessage,
    responded: Set<Seq<char>>,
    bot_user_id: Option<Seq<char>>,
    bot_username: Seq<char>,
) -> (int, Seq<char>, Seq<char>, Seq<char>) {
    // (0: ignore, 1: mark handled, 2: answer; message id; author; question)
    match msg.message_id {
        None => (0, Seq::empty(), Seq::empty(), Seq::empty()),
        Some(id) => if responded.contains(id@) {
            (0, Seq::empty(), Seq::empty(), Seq::empty())
        } else if msg.author_is_bot.unwrap_or(false) {
            (1, id@, Seq::empty(), Seq::empty())
        } else if bot_user_id is Some && msg.author_id is Some && bot_user_id.unwrap() == msg.author_id.unwrap()@ {
            (1, id@, Seq::empty(), Seq::empty())
        } else if !mentions(text_or(msg.text, Seq::empty()), bot_username) {
            (0, Seq::empty(), Seq::empty(), Seq::empty())
        } else {
            (
                2,
                id@,
                text_or(msg.author_display_name, "Someone"@),
                stripped_question(text_or(msg.text, Seq::empty()), bot_username),
            )
        },
    }
}

/// The action as a tuple in the form of `message_action_spec`.
pub open spec fn action_view(a: MessageAction) -> (int, Seq<char>, Seq<char>, Seq<char>) {
    match a {
        MessageAction::Ignore => (0, Seq::empty(), Seq::empty(), Seq::empty()),
        MessageAction::MarkHandled { message_id } => (1, message_id@, Seq::empty(), Seq::empty()),
        MessageAction::Answer { message_id, author, question } => (2, message_id@, author@, question@),
    }
}

/// Decide what to do with a fetched chat message: messages without an id
/// or already handled are ignored; bot messages and the bot's own messages
/// are marked handled; other messages are answered when they mention the
/// bot, and ignored otherwise.
pub fn classify_message(
    msg: &ChatMessage,
    state: &ChatState,
    bot_user_id: Option<&str>,
    bot_username: &str,
) -> (a: MessageAction)
    ensures
        action_view(a) == message_action_spec(
            *msg,
            state.responded(),
            match bot_user_id { Some(b) => Some(b@), None => None },
            bot_username@,
        ),
{
    proof {
        reveal_strlit("");
        assert(""@ =~= Seq::<char>::empty());
    }
    let id = match &msg.message_id {
        Some(id) => id,
        None => return MessageAction::Ignore,
    };
    if state.has_responded(id.as_str()) {
        return MessageAction::Ignore;
    }
    let is_bot = match msg.author_is_bot { Some(b) => b, None => false };
    if is_bot {
        return MessageAction::MarkHandled { message_id: id.clone() };
    }
    if let Some(bot_id) = bot_user_id {
        if let Some(author_id) = &msg.author_id {
            if same_text(bot_id, author_id.as_str()) {
                return MessageAction::MarkHandled { message_id: id.clone() };
            }
        }
    }
    let text = str_or(&msg.text, "");
    if !is_mention(text, bot_username) {
        return MessageAction::Ignore;
    }
    let author = str_or(&msg.author_display_name, "Someone").to_string();
    let question = strip_mention(text, bot_username);
    MessageAction::Answer { message_id: id.clone(), author, question }
}

/// The history block: empty without exchanges, else a heading and one
/// "User: q / You: a" pair per exchange.
pub open spec fn history_block(history: Seq<(Seq<char>, Seq<char>)>) -> Seq<char>
    decreases history.len(),
{
    if history.len() == 0 {
        Seq::empty()
    } else if history.len() == 1 {
        "Recent conversation with this user:\n"@ + "User: "@ + history[0].0 + "\nYou: "@ + history[0].1 + "\n\n"@
    } else {
        history_block(history.drop_last()) + "User: "@ + history.last().0 + "\nYou: "@ + history.last().1 + "\n\n"@
    }
}

/// The message handed to the chat assistant for a question.
pub open spec fn agent_message_text(
    context: Seq<char>,
    history: Seq<(Seq<char>, Seq<char>)>,
    author: Seq<char>,
    question: Seq<char>,
) -> Seq<char> {
    "League context: "@ + context + "\n\n"@ + history_block(history) + author
        + " tagged you in the league chat and said:\n\""@ + question + "\""@
}

/// Compose the message for the chat assistant: league context, the recent
/// exchanges with this user, and the question with its author.
pub fn compose_agent_message(
    context: &str,
    history: &Vec<(&str, &str)>,
    author: &str,
    question: &str,
) -> (r: String)
    ensures
        r@ == agent_message_text(context@, history@.map_values(|e: (&str, &str)| (e.0@, e.1@)), author@, question@),
{
    let ghost hv = history@.map_values(|e: (&str, &str)| (e.0@, e.1@));
    let mut h = String::new();
    assert(hv.take(0) =~= Seq::<(Seq<char>, Seq<char>)>::empty());
    for i in 0..history.len()
        invariant
            hv == history@.map_values(|e: (&str, &str)| (e.0@, e.1@)),
            h@ == history_block(hv.take(i as int)),
    {
        if i == 0 {
            push_str(&mut h, "Recent conversation with this user:\n");
        }
        let ghost before = h@;
        push_str(&mut h, "User: ");
        push_str(&mut h, history[i].0);
        push_str(&mut h, "\nYou: ");
        push_str(&mut h, history[i].1);
        push_str(&mut h, "\n\n");
        assert(hv.take(i + 1).drop_last() =~= hv.take(i as int));
        assert(hv.take(i + 1).last() == hv[i as int]);
        proof {
            if i == 0 {
                assert(hv.take(1)[0] == hv[0]);
            }
        }
    }
    assert(hv.take(history.len() as int) =~= hv);
    let mut r = String::new();
    push_str(&mut r, "League context: ");
    push_str(&mut r, context);
    push_str(&mut r, "\n\n");
    push_str(&mut r, h.as_str());
    push_str(&mut r, author);
    push_str(&mut r, " tagged you in the league chat and said:\n\"");
    push_str(&mut r, question);
    push_str(&mut r, "\"");
    r
}


/// What is posted when no reply could be made to a mention.
pub open spec fn fallback_reply_text() -> Seq<char> {
    "I'm having trouble thinking right now. Try again in a bit."@
}

/// What follows the agent's run on a mention: a reply is remembered as an
/// exchange with its author and posted; without one the fallback text is
/// posted and nothing is remembered. Either way the message is marked as
/// answered. Returns the text to post.
pub fn finish_reply(
    state: &mut ChatState,
    message_id: &str,
    author_id: &str,
    question: String,
    outcome: Result<String, String>,
) -> (post: String)
    requires
        old(state).well_formed(),
    ensures
        final(state).well_formed(),
        final(state).responded() == old(state).responded().insert(message_id@),
        match outcome {
            Ok(reply) => {
                &&& post@ == reply@
                &&& final(state).exchanges(author_id@) == window_after(
                    old(state).exchanges(author_id@),
                    (question@, reply@),
                )
                &&& forall|u: Seq<char>| u != author_id@ ==> final(state).exchanges(u) == old(state).exchanges(u)
            },
            Err(_) => {
                &&& post@ == fallback_reply_text()
                &&& forall|u: Seq<char>| final(state).exchanges(u) == old(state).exchanges(u)
            },
        },
{
    let post = match outcome {
        Ok(reply) => {
            state.add_exchange(author_id, question, reply.clone());
            reply
        },
        Err(_) => String::from_str("I'm having trouble thinking right now. Try again in a bit."),
    };
    state.mark_responded(message_id);
    post
}

} // verus!
