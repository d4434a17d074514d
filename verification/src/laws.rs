//! Properties of the library as a whole: what holds across calls and for
//! every input.
use vstd::prelude::*;
use vstd::string::*;

use crate::agent::{retry_delay_spec, tool_use_positions, ReplyBlock};
use crate::chat::{
    context_league_type, context_text, mentions, message_action_spec, owned_rosters, standing_key, ChatMessage,
};
use crate::graphql::{token_status_spec, TokenStatus};
use crate::history::{add_roster, add_rosters, bump, display_of, row_index, LeagueHistory, TotalsRow};
use crate::search::{
    after_page, counted_len, page_matches, wants_page, MessageFilter, MessageSearch, MAX_SEARCH_MESSAGES,
    MAX_SEARCH_PAGES,
};
use crate::sleeper::{DraftPick, League, NflState, PlayerMap, Roster, RosterSettings, Transaction, User};
use crate::lineup::{league_is_superflex, league_kind, lineup_text, summary_text, team_count};
use crate::order::{is_ranking, ranks_before};
use crate::state::{window_after, ChatState, ReviewState, MAX_RECENT_EXCHANGES};
use crate::news::{decoded_from, entities_decoded, entity_at, hex_char, is_unreserved, percent_bytes, url_char, url_encoded};
use crate::chat::{folded_code, occurs_ignoring_case, removed_ignoring_case, stripped_question};
use crate::text::{decimal, has_substring, lowercase, occurs_at, text_or, trimmed};
use crate::tools::{limit_arg, tool_call_spec, tx_scan};
use crate::schema::{schema_spec, tool_names, ParamKind, ParamView, SchemaView};
use crate::json::{doc_member, item_text, JsonDocView};
use crate::trade_analyzer::{adds_for, is_new_trade, new_trade_positions, picks_for, receives_text};

verus! {

// ───────────── Trades are reviewed once ─────────────

/// The id under which a trade is recorded as reviewed (`Transaction::id`).
pub open spec fn review_key(tx: Transaction) -> Seq<char> {
    text_or(tx.transaction_id, "unknown"@)
}

/// The trades selected for review are exactly the new trades, in
/// transaction order.
pub proof fn law_selection_is_new_trades(txs: Seq<Transaction>, reviewed: Set<Seq<char>>, cutoff: u64)
    requires
        txs.len() <= usize::MAX,
    ensures
        ({
            let sel = new_trade_positions(txs, reviewed, cutoff);
            &&& forall|k: int| 0 <= k < sel.len() ==> (#[trigger] sel[k]) < txs.len() && is_new_trade(
                txs[sel[k] as int],
                reviewed,
                cutoff,
            )
            &&& forall|k: int, l: int| 0 <= k < l < sel.len() ==> #[trigger] sel[k] < #[trigger] sel[l]
            &&& forall|p: int| 0 <= p < txs.len() && is_new_trade(#[trigger] txs[p], reviewed, cutoff)
                ==> sel.contains(p as usize)
        }),
    decreases txs.len(),
{
    if txs.len() > 0 {
        let init = txs.drop_last();
        law_selection_is_new_trades(init, reviewed, cutoff);
        let sel0 = new_trade_positions(init, reviewed, cutoff);
        let sel = new_trade_positions(txs, reviewed, cutoff);
        let last = (txs.len() - 1) as usize;
        if is_new_trade(txs.last(), reviewed, cutoff) {
            assert(sel == sel0.push(last));
        } else {
            assert(sel == sel0);
        }
        assert forall|k: int| 0 <= k < sel.len() implies (#[trigger] sel[k]) < txs.len() && is_new_trade(
            txs[sel[k] as int],
            reviewed,
            cutoff,
        ) by {
            if k < sel0.len() {
                assert(sel[k] == sel0[k]);
                assert(init[sel0[k] as int] == txs[sel0[k] as int]);
            } else {
                assert(sel[k] == last);
            }
        }
        assert forall|k: int, l: int| 0 <= k < l < sel.len() implies #[trigger] sel[k] < #[trigger] sel[l] by {
            assert(sel[k] == sel0[k]);
            assert(sel0[k] < init.len());
            if l < sel0.len() {
                assert(sel[l] == sel0[l]);
            }
        }
        assert forall|p: int| 0 <= p < txs.len() && is_new_trade(#[trigger] txs[p], reviewed, cutoff) implies sel.contains(
            p as usize,
        ) by {
            if p < init.len() {
                assert(init[p] == txs[p]);
                let k = choose|k: int| 0 <= k < sel0.len() && sel0[k] == p as usize;
                assert(sel[k] == sel0[k]);
            } else {
                assert(sel[sel.len() - 1] == p as usize);
            }
        }
    }
}

/// A trade is reviewed at most once: once every selected trade has been
/// recorded as reviewed, the same transactions select nothing.
pub proof fn law_reviewed_trades_are_not_selected_again(
    txs: Seq<Transaction>,
    reviewed: Set<Seq<char>>,
    later: Set<Seq<char>>,
    cutoff: u64,
)
    requires
        txs.len() <= usize::MAX,
        reviewed.subset_of(later),
        forall|k: int| 0 <= k < new_trade_positions(txs, reviewed, cutoff).len() ==> later.contains(
            review_key(txs[#[trigger] new_trade_positions(txs, reviewed, cutoff)[k] as int]),
        ),
    ensures
        new_trade_positions(txs, later, cutoff).len() == 0,
{
    law_selection_is_new_trades(txs, later, cutoff);
    law_selection_is_new_trades(txs, reviewed, cutoff);
    let sel = new_trade_positions(txs, later, cutoff);
    let sel0 = new_trade_positions(txs, reviewed, cutoff);
    if sel.len() > 0 {
        let p = sel[0] as int;
        assert(is_new_trade(txs[p], later, cutoff));
        assert(is_new_trade(txs[p], reviewed, cutoff));
        let k = choose|k: int| 0 <= k < sel0.len() && sel0[k] == p as usize;
        assert(later.contains(review_key(txs[sel0[k] as int])));
        assert(false);
    }
}

/// A trade recorded as reviewed is reported as reviewed, and recording it
/// changes the answer for no other trade.
pub proof fn law_marked_trade_is_reviewed(before: ReviewState, after: ReviewState, id: Seq<char>, other: Seq<char>)
    requires
        after.reviewed() == before.reviewed().insert(id),
    ensures
        after.reviewed().contains(id),
        other != id ==> after.reviewed().contains(other) == before.reviewed().contains(other),
{
}

/// A message recorded as answered is reported as answered, and recording
/// it changes the answer for no other message.
pub proof fn law_marked_message_is_answered(before: ChatState, after: ChatState, id: Seq<char>, other: Seq<char>)
    requires
        after.responded() == before.responded().insert(id),
    ensures
        after.responded().contains(id),
        other != id ==> after.responded().contains(other) == before.responded().contains(other),
{
}

/// The conversation memory keeps at most three exchanges per user: the
/// newest exchange is always the last remembered, the ones before it are
/// the most recent earlier ones, in order.
pub proof fn law_exchange_window(old: Seq<(Seq<char>, Seq<char>)>, x: (Seq<char>, Seq<char>))
    requires
        old.len() <= MAX_RECENT_EXCHANGES,
    ensures
        window_after(old, x).len() <= MAX_RECENT_EXCHANGES,
        window_after(old, x).last() == x,
        window_after(old, x).drop_last() == old.push(x).drop_last().skip(
            old.push(x).len() - window_after(old, x).len(),
        ),
{
    let w = window_after(old, x);
    if old.len() >= MAX_RECENT_EXCHANGES {
        assert(w.drop_last() =~= old.push(x).drop_last().skip(1));
    } else {
        assert(w.drop_last() =~= old.push(x).drop_last().skip(0));
    }
}

// ───────────── Chat ─────────────

/// The bot answers a message at most once and never answers itself: a
/// message already handled is ignored, a message by the bot's own user is
/// only marked handled, and a message is answered only when it mentions
/// the bot.
pub proof fn law_answers_only_new_mentions(
    msg: ChatMessage,
    responded: Set<Seq<char>>,
    bot_user_id: Option<Seq<char>>,
    bot_username: Seq<char>,
)
    ensures
        ({
            let a = message_action_spec(msg, responded, bot_user_id, bot_username);
            &&& (msg.message_id matches Some(id) && responded.contains(id@)) ==> a.0 == 0
            &&& (bot_user_id matches Some(b) && msg.author_id matches Some(au) && b == au@) ==> a.0 != 2
            &&& a.0 == 2 ==> mentions(text_or(msg.text, Seq::empty()), bot_username)
            &&& a.0 != 0 ==> (msg.message_id matches Some(id) && a.1 == id@)
        }),
{
}

// ───────────── Message search ─────────────

/// A page keeps at most as many matches as it has messages.
pub proof fn law_page_matches_bounded(f: MessageFilter, page: Seq<ChatMessage>)
    ensures
        page_matches(f, page).len() <= page.len(),
    decreases page.len(),
{
    if page.len() > 0 {
        law_page_matches_bounded(f, page.drop_last());
    }
}

/// A search fetches at most forty pages, looks at no more than a thousand
/// messages, and finds no more matches than messages looked at: taking in
/// a page the search asked for keeps the page count within its limit and
/// the message count within its limit, counts every message of the page
/// while that limit allows, and adds at most as many matches as messages
/// counted.
pub proof fn law_search_step_bounded(s: MessageSearch, f: MessageFilter, page: Seq<ChatMessage>)
    requires
        wants_page(s),
    ensures
        ({
            let n = after_page(s, f, page);
            &&& n.2 <= MAX_SEARCH_PAGES
            &&& n.1 <= MAX_SEARCH_MESSAGES
            &&& s.fetched + page.len() <= MAX_SEARCH_MESSAGES ==> n.1 == s.fetched + page.len()
            &&& n.4.len() <= s.matches@.len() + (n.1 - s.fetched)
        }),
{
    if page.len() > 0 {
        law_page_matches_bounded(f, page.take(counted_len(s.fetched, page.len())));
    }
}

// ───────────── Reports ─────────────

/// The recent-transactions report shows at most `limit` transactions.
pub proof fn law_recent_transactions_limited(
    txs: Seq<Transaction>,
    filter: Option<Seq<char>>,
    cutoff: u64,
    limit: u32,
    names: Map<u32, Seq<char>>,
    players: PlayerMap,
)
    ensures
        tx_scan(txs, filter, cutoff, limit, names, players).0 <= limit,
    decreases txs.len(),
{
    if txs.len() > 0 {
        law_recent_transactions_limited(txs.drop_last(), filter, cutoff, limit, names, players);
    }
}

// ───────────── Agents ─────────────

/// The agent runs tools only for tool-call blocks: every position it
/// picks holds a tool call, each once, in reply order, and every tool call
/// is picked.
pub proof fn law_tools_run_for_tool_calls(blocks: Seq<ReplyBlock>)
    requires
        blocks.len() <= usize::MAX,
    ensures
        ({
            let pos = tool_use_positions(blocks);
            &&& forall|k: int| 0 <= k < pos.len() ==> (#[trigger] pos[k]) < blocks.len() && blocks[pos[k] as int] is ToolUse
            &&& forall|k: int, l: int| 0 <= k < l < pos.len() ==> #[trigger] pos[k] < #[trigger] pos[l]
            &&& forall|p: int| 0 <= p < blocks.len() && #[trigger] blocks[p] is ToolUse ==> pos.contains(p as usize)
        }),
    decreases blocks.len(),
{
    if blocks.len() > 0 {
        let init = blocks.drop_last();
        law_tools_run_for_tool_calls(init);
        let p0 = tool_use_positions(init);
        let pos = tool_use_positions(blocks);
        let last = (blocks.len() - 1) as usize;
        if blocks.last() is ToolUse {
            assert(pos == p0.push(last));
        } else {
            assert(pos == p0);
        }
        assert forall|k: int| 0 <= k < pos.len() implies (#[trigger] pos[k]) < blocks.len() && blocks[pos[k] as int] is ToolUse by {
            if k < p0.len() {
                assert(pos[k] == p0[k]);
                assert(init[p0[k] as int] == blocks[p0[k] as int]);
            }
        }
        assert forall|k: int, l: int| 0 <= k < l < pos.len() implies #[trigger] pos[k] < #[trigger] pos[l] by {
            assert(pos[k] == p0[k]);
            assert(p0[k] < init.len());
            if l < p0.len() {
                assert(pos[l] == p0[l]);
            }
        }
        assert forall|p: int| 0 <= p < blocks.len() && #[trigger] blocks[p] is ToolUse implies pos.contains(p as usize) by {
            if p < init.len() {
                assert(init[p] == blocks[p]);
                let k = choose|k: int| 0 <= k < p0.len() && p0[k] == p as usize;
                assert(pos[k] == p0[k]);
            } else {
                assert(pos[pos.len() - 1] == p as usize);
            }
        }
    }
}

/// A request is tried at most four times: there is a wait before each of
/// the first four attempts (0, 1, 2 and 4 seconds) and none after.
pub proof fn law_at_most_four_attempts(attempt: nat)
    ensures
        retry_delay_spec(attempt) is Some <==> attempt < 4,
        attempt == 3 ==> retry_delay_spec(attempt) == Some(4u64),
{
}

// ───────────── League history ─────────────

/// Walking back through past seasons visits each league at most once, so
/// a loop in the chain of previous leagues ends the walk.
pub proof fn law_history_visits_each_league_once(h: LeagueHistory)
    requires
        h.well_formed(),
    ensures
        h.visited_ids().no_duplicates(),
{
    h.lemma_visited_unique();
}

// ───────────── Text ─────────────

/// A character that may appear in an encoded query: unreserved
/// characters, '+', '%' and the upper-case hexadecimal digits.
pub open spec fn url_safe(c: char) -> bool {
    is_unreserved(c) || c == '+' || c == '%' || ('A' <= c && c <= 'F')
}

proof fn lemma_percent_bytes_safe(bytes: Seq<u8>)
    ensures
        forall|i: int| 0 <= i < percent_bytes(bytes).len() ==> url_safe(#[trigger] percent_bytes(bytes)[i]),
    decreases bytes.len(),
{
    if bytes.len() > 0 {
        lemma_percent_bytes_safe(bytes.drop_first());
        let hi = hex_char((bytes[0] / 16) as nat);
        let lo = hex_char((bytes[0] % 16) as nat);
        let head = seq!['%', hi, lo];
        assert(url_safe(hi) && url_safe(lo));
        assert forall|i: int| 0 <= i < percent_bytes(bytes).len() implies url_safe(#[trigger] percent_bytes(bytes)[i]) by {
            if i < 3 {
                assert(percent_bytes(bytes)[i] == head[i]);
            } else {
                assert(percent_bytes(bytes)[i] == percent_bytes(bytes.drop_first())[i - 3]);
            }
        }
    }
}

/// URL encoding gives text that is safe in a query: only unreserved
/// characters, '+', '%' and upper-case hexadecimal digits.
pub proof fn law_urlencode_is_url_safe(s: Seq<char>)
    ensures
        forall|i: int| 0 <= i < url_encoded(s).len() ==> url_safe(#[trigger] url_encoded(s)[i]),
    decreases s.len(),
{
    if s.len() > 0 {
        law_urlencode_is_url_safe(s.drop_last());
        let c = s.last();
        if !is_unreserved(c) && c != ' ' {
            lemma_percent_bytes_safe(vstd::utf8::encode_scalar(c as u32));
        }
        let before = url_encoded(s.drop_last());
        assert forall|i: int| 0 <= i < url_encoded(s).len() implies url_safe(#[trigger] url_encoded(s)[i]) by {
            if i < before.len() {
                assert(url_encoded(s)[i] == before[i]);
            } else {
                assert(url_encoded(s)[i] == url_char(c)[i - before.len()]);
            }
        }
    }
}

/// The value of a hexadecimal digit, in either case.
pub open spec fn hex_value(c: char) -> Option<nat> {
    if '0' <= c && c <= '9' {
        Some((c as u32 - '0' as u32) as nat)
    } else if 'A' <= c && c <= 'F' {
        Some((c as u32 - 'A' as u32 + 10) as nat)
    } else if 'a' <= c && c <= 'f' {
        Some((c as u32 - 'a' as u32 + 10) as nat)
    } else {
        None
    }
}

/// The bytes a form-encoded query value stands for: "%XY" is the byte
/// with hexadecimal value XY, '+' a space, and any other character its
/// UTF-8 bytes.
pub open spec fn form_decoded(t: Seq<char>) -> Seq<u8>
    decreases t.len(),
{
    if t.len() == 0 {
        Seq::empty()
    } else if t[0] == '%' && t.len() >= 3 && hex_value(t[1]) is Some && hex_value(t[2]) is Some {
        seq![(hex_value(t[1])->0 * 16 + hex_value(t[2])->0) as u8] + form_decoded(t.skip(3))
    } else if t[0] == '+' {
        seq![0x20u8] + form_decoded(t.drop_first())
    } else {
        vstd::utf8::encode_scalar(t[0] as u32) + form_decoded(t.drop_first())
    }
}

proof fn lemma_hex_value(d: nat)
    requires
        d < 16,
    ensures
        hex_value(hex_char(d)) == Some(d),
{
}

/// Decoding percent-encoded bytes gives the bytes back.
proof fn lemma_percent_decoded(bs: Seq<u8>, rest: Seq<char>)
    ensures
        form_decoded(percent_bytes(bs) + rest) == bs + form_decoded(rest),
    decreases bs.len(),
{
    if bs.len() > 0 {
        let b = bs[0];
        let hi = (b / 16) as nat;
        let lo = (b % 16) as nat;
        lemma_hex_value(hi);
        lemma_hex_value(lo);
        let t = percent_bytes(bs) + rest;
        let tail = percent_bytes(bs.drop_first()) + rest;
        assert(t =~= seq!['%', hex_char(hi), hex_char(lo)] + tail);
        assert(t.skip(3) =~= tail);
        assert(hi * 16 + lo == b) by (nonlinear_arith)
            requires
                hi == b / 16,
                lo == b % 16,
        ;
        lemma_percent_decoded(bs.drop_first(), rest);
        assert(bs =~= seq![b] + bs.drop_first());
    } else {
        assert(percent_bytes(bs) + rest =~= rest);
        assert(bs + form_decoded(rest) =~= form_decoded(rest));
    }
}

/// Decoding the encoding of one character gives its UTF-8 bytes.
proof fn lemma_url_char_decoded(c: char, rest: Seq<char>)
    ensures
        form_decoded(url_char(c) + rest) == vstd::utf8::encode_scalar(c as u32) + form_decoded(rest),
{
    let t = url_char(c) + rest;
    if is_unreserved(c) {
        assert(t.drop_first() =~= rest);
    } else if c == ' ' {
        assert(t.drop_first() =~= rest);
        assert((0x20u32 & 0x7F) as u8 == 0x20u8) by (bit_vector);
        assert(vstd::utf8::encode_scalar(c as u32) =~= seq![0x20u8]);
    } else {
        lemma_percent_decoded(vstd::utf8::encode_scalar(c as u32), rest);
    }
}

/// Encoding a text that starts with `c` starts with the encoding of `c`.
proof fn lemma_url_encoded_first(c: char, s: Seq<char>)
    ensures
        url_encoded(seq![c] + s) == url_char(c) + url_encoded(s),
    decreases s.len(),
{
    if s.len() == 0 {
        assert(seq![c] + s =~= seq![c]);
        assert(seq![c].drop_last() =~= Seq::<char>::empty());
        assert(url_encoded(seq![c]) == url_encoded(Seq::<char>::empty()) + url_char(c));
        assert(url_char(c) + Seq::<char>::empty() =~= url_char(c));
        assert(Seq::<char>::empty() + url_char(c) =~= url_char(c));
    } else {
        let cs = seq![c] + s;
        assert(cs.drop_last() =~= seq![c] + s.drop_last());
        assert(cs.last() == s.last());
        assert(url_encoded(cs) == url_encoded(cs.drop_last()) + url_char(cs.last()));
        lemma_url_encoded_first(c, s.drop_last());
        assert(url_char(c) + url_encoded(s.drop_last()) + url_char(s.last())
            =~= url_char(c) + (url_encoded(s.drop_last()) + url_char(s.last())));
    }
}

/// Form-decoding the encoding of a text gives its UTF-8 bytes.
proof fn lemma_url_round_trip(s: Seq<char>)
    ensures
        form_decoded(url_encoded(s)) == vstd::utf8::encode_utf8(s),
    decreases s.len(),
{
    if s.len() > 0 {
        assert(s =~= seq![s[0]] + s.drop_first());
        lemma_url_encoded_first(s[0], s.drop_first());
        lemma_url_char_decoded(s[0], url_encoded(s.drop_first()));
        lemma_url_round_trip(s.drop_first());
    }
}

/// URL encoding can be undone: form-decoding the encoding of a text
/// ('+' to a space, "%XY" to its byte) gives the text's UTF-8 bytes, which
/// decode back to the text.
pub proof fn law_urlencode_decodes_back(s: Seq<char>)
    ensures
        form_decoded(url_encoded(s)) == vstd::utf8::encode_utf8(s),
        vstd::utf8::decode_utf8(form_decoded(url_encoded(s))) == s,
{
    lemma_url_round_trip(s);
    vstd::utf8::encode_utf8_decode_utf8(s);
}

/// No entity starts where `s` holds no '&'.
proof fn lemma_no_entity_without_ampersand(s: Seq<char>, i: int)
    requires
        0 <= i < s.len(),
        s[i] != '&',
    ensures
        entity_at(s, i) is None,
{
    reveal_strlit("&amp;");
    reveal_strlit("&lt;");
    reveal_strlit("&gt;");
    reveal_strlit("&quot;");
    reveal_strlit("&apos;");
    reveal_strlit("&#39;");
    reveal_strlit("&#x27;");
    assert forall|pat: Seq<char>| pat.len() > 0 && pat[0] == '&' implies !occurs_at(s, pat, i) by {
        if occurs_at(s, pat, i) {
            assert(s.subrange(i, i + pat.len())[0] == s[i]);
        }
    }
    assert("&amp;"@[0] == '&');
    assert("&lt;"@[0] == '&');
    assert("&gt;"@[0] == '&');
    assert("&quot;"@[0] == '&');
    assert("&apos;"@[0] == '&');
    assert("&#39;"@[0] == '&');
    assert("&#x27;"@[0] == '&');
}

/// Decoding from position `i` of text without '&' gives the rest of it.
proof fn lemma_decoded_from_plain(s: Seq<char>, i: int)
    requires
        !s.contains('&'),
        0 <= i <= s.len(),
    ensures
        decoded_from(s, i) == s.skip(i),
    decreases s.len() - i,
{
    if i < s.len() {
        assert(s[i] != '&') by {
            if s[i] == '&' {
                assert(s.contains('&'));
            }
        }
        lemma_no_entity_without_ampersand(s, i);
        lemma_decoded_from_plain(s, i + 1);
        assert(s.skip(i) =~= seq![s[i]] + s.skip(i + 1));
    } else {
        assert(s.skip(i) =~= Seq::<char>::empty());
    }
}

/// Entity decoding leaves text without '&' unchanged.
pub proof fn law_decoding_without_ampersand_is_identity(s: Seq<char>)
    requires
        !s.contains('&'),
    ensures
        entities_decoded(s) == s,
{
    lemma_decoded_from_plain(s, 0);
    assert(s.skip(0) =~= s);
}

/// Each entity is decoded once: where `s` starts with an entity, what it
/// stands for comes first, and decoding goes on right after the entity.
pub proof fn law_entity_decoded_once(s: Seq<char>)
    requires
        entity_at(s, 0) is Some,
    ensures
        ({
            let (n, c) = entity_at(s, 0)->0;
            entities_decoded(s) == seq![c] + decoded_from(s, n)
        }),
{
    reveal_strlit("&amp;");
    reveal_strlit("&lt;");
    reveal_strlit("&gt;");
    reveal_strlit("&quot;");
    reveal_strlit("&apos;");
    reveal_strlit("&#39;");
    reveal_strlit("&#x27;");
}

/// Removing a pattern that does not occur, ignoring case, changes nothing.
proof fn lemma_removed_absent(s: Seq<char>, pat: Seq<char>)
    requires
        pat.len() > 0,
        forall|i: int| !occurs_ignoring_case(s, pat, i),
    ensures
        removed_ignoring_case(s, pat) == s,
    decreases s.len(),
{
    if s.len() > 0 {
        let t = s.drop_first();
        assert forall|i: int| !occurs_ignoring_case(t, pat, i) by {
            if occurs_ignoring_case(t, pat, i) {
                assert(t.subrange(i, i + pat.len()) =~= s.subrange(i + 1, i + 1 + pat.len()));
                assert(occurs_ignoring_case(s, pat, i + 1));
            }
        }
        assert(!occurs_ignoring_case(s, pat, 0));
        lemma_removed_absent(t, pat);
        assert(s =~= seq![s[0]] + t);
    }
}

/// Stripping the mention from a message that does not name the bot, in
/// any case, only trims it.
pub proof fn law_strip_without_mention_only_trims(text: Seq<char>, bot: Seq<char>)
    requires
        bot.len() > 0,
        forall|i: int| !occurs_ignoring_case(text, bot, i),
    ensures
        stripped_question(text, bot) == trimmed(text),
{
    reveal_strlit("@");
    let at_bot = "@"@ + bot;
    assert forall|i: int| !occurs_ignoring_case(text, at_bot, i) by {
        if occurs_ignoring_case(text, at_bot, i) {
            let w = text.subrange(i, i + at_bot.len());
            assert forall|k: int| 0 <= k < bot.len() implies #[trigger] folded_code(
                text.subrange(i + 1, i + 1 + bot.len())[k],
            ) == folded_code(bot[k]) by {
                assert(text.subrange(i + 1, i + 1 + bot.len())[k] == w[k + 1]);
                assert(at_bot[k + 1] == bot[k]);
                assert(folded_code(w[k + 1]) == folded_code(at_bot[k + 1]));
            }
            assert(occurs_ignoring_case(text, bot, i + 1));
        }
    }
    lemma_removed_absent(text, at_bot);
    lemma_removed_absent(text, bot);
}

// ───────────── Token expiry ─────────────

/// A token with at least 31 whole days left is valid, one with less left
/// that has not passed its expiry gets a warning, and one past its expiry
/// has expired.
pub proof fn law_token_status_by_time_left(exp: i64, now: i64)
    ensures
        exp - now >= 31 * 86400 ==> token_status_spec(exp, now) is Valid,
        0 <= exp - now < 31 * 86400 ==> token_status_spec(exp, now) is ExpiresSoon,
        exp < now ==> token_status_spec(exp, now) is Expired,
{
    let d = exp - now;
    if d >= 31 * 86400 {
        assert(d / 86400 >= 31) by (nonlinear_arith)
            requires
                d >= 31 * 86400,
        ;
    } else if 0 <= d {
        assert(0 <= d / 86400 <= 30) by (nonlinear_arith)
            requires
                0 <= d < 31 * 86400,
        ;
    } else if d > -86400 {
        assert((-d) / 86400 == 0) by (nonlinear_arith)
            requires
                0 < -d < 86400,
        ;
    } else {
        assert((-d) / 86400 >= 1) by (nonlinear_arith)
            requires
                -d >= 86400,
        ;
    }
}


// ───────────── Tool descriptions ─────────────

/// Whether a call's arguments give a value of the parameter's kind under
/// its name, as the tool-call parser reads it.
pub open spec fn arg_given(input: JsonDocView, p: ParamView) -> bool {
    match p.1 {
        ParamKind::Text => item_text(doc_member(input, p.0)) is Some,
        ParamKind::Integer => limit_arg(input, p.0) is Some,
    }
}

/// Whether the arguments give every parameter that a description marks as
/// required.
pub open spec fn required_given(sv: SchemaView, input: JsonDocView) -> bool {
    forall|j: int| 0 <= j < sv.2.len() && sv.3.contains(#[trigger] sv.2[j].0) ==> arg_given(input, sv.2[j])
}

/// The tools described to the models are the tools the parser knows, and
/// the parameters they mark as required are the ones it asks for: every
/// offered name has a description under that name, every required name is
/// that of a parameter, a call of an offered tool is never refused as
/// unknown, and it is understood exactly when every required parameter is
/// given.
pub proof fn law_tool_descriptions_match_parser(i: int, input: JsonDocView)
    requires
        0 <= i < tool_names().len(),
    ensures
        ({
            let name = tool_names()[i];
            &&& schema_spec(name) matches Some(sv)
            &&& sv.0 == name
            &&& forall|k: int| 0 <= k < sv.3.len() ==> exists|j: int| 0 <= j < sv.2.len() && #[trigger] sv.2[j].0 == #[trigger] sv.3[k]
            &&& !(tool_call_spec(name, input) matches Err(Err(_)))
            &&& (tool_call_spec(name, input) is Ok <==> required_given(sv, input))
        }),
{
    reveal_strlit("get_league_standings");
    reveal_strlit("get_team_roster");
    reveal_strlit("get_player_info");
    reveal_strlit("search_waiver_wire");
    reveal_strlit("get_recent_transactions");
    reveal_strlit("get_matchup");
    reveal_strlit("get_league_history");
    reveal_strlit("get_past_season_results");
    reveal_strlit("search_league_messages");
    let name = tool_names()[i];
    let sv = schema_spec(name)->0;
    if sv.3.len() > 0 {
        assert(sv.2[0].0 == sv.3[0]);
        assert(sv.3.contains(sv.2[0].0));
    }
}


// ───────────── What a trade gives each team ─────────────

/// How many of the added players go to roster `rid`.
pub open spec fn adds_to_count(adds: Seq<(String, u32)>, rid: u32) -> nat
    decreases adds.len(),
{
    if adds.len() == 0 {
        0
    } else {
        adds_to_count(adds.drop_last(), rid) + if adds.last().1 == rid { 1nat } else { 0nat }
    }
}

/// How many of the traded picks roster `rid` now owns.
pub open spec fn picks_to_count(picks: Seq<DraftPick>, rid: u32) -> nat
    decreases picks.len(),
{
    if picks.len() == 0 {
        0
    } else {
        picks_to_count(picks.drop_last(), rid) + if picks.last().owner_id.unwrap_or(0) == rid { 1nat } else { 0nat }
    }
}

proof fn lemma_adds_for_len(adds: Seq<(String, u32)>, rid: u32, players: PlayerMap)
    ensures
        adds_for(adds, rid, players).len() == adds_to_count(adds, rid),
    decreases adds.len(),
{
    if adds.len() > 0 {
        lemma_adds_for_len(adds.drop_last(), rid, players);
    }
}

proof fn lemma_picks_for_len(picks: Seq<DraftPick>, rid: u32, names: Map<u32, Seq<char>>)
    ensures
        picks_for(picks, rid, names).len() == picks_to_count(picks, rid),
    decreases picks.len(),
{
    if picks.len() > 0 {
        lemma_picks_for_len(picks.drop_last(), rid, names);
    }
}

/// What a roster receives in a trade is decided by the trade's added
/// players and traded picks alone: one item per player added to it and per
/// pick it now owns, nothing for the players it drops, and nothing at all
/// from a trade that adds no player and moves no pick.
pub proof fn law_receives_come_from_adds_and_picks(
    tx: Transaction,
    other: Transaction,
    rid: u32,
    names: Map<u32, Seq<char>>,
    players: PlayerMap,
)
    ensures
        receives_text(tx, rid, names, players).len() == (match tx.adds {
            Some(a) => adds_to_count(a@, rid),
            None => 0,
        }) + (match tx.draft_picks {
            Some(p) => picks_to_count(p@, rid),
            None => 0,
        }),
        tx.adds == other.adds && tx.draft_picks == other.draft_picks ==> receives_text(tx, rid, names, players)
            == receives_text(other, rid, names, players),
        tx.adds is None && tx.draft_picks is None ==> receives_text(tx, rid, names, players).len() == 0,
{
    if let Some(a) = tx.adds {
        lemma_adds_for_len(a@, rid, players);
    }
    if let Some(p) = tx.draft_picks {
        lemma_picks_for_len(p@, rid, names);
    }
}

// ───────────── League summary ─────────────

/// A league summary opens with the team count (when known), "superflex"
/// when a slot takes a quarterback, and the word for the league's type:
/// "dynasty" for type 2, "keeper" for type 1, "redraft" for type 0, and
/// "fantasy" for any other type or none. Distinct known types get distinct
/// words.
pub proof fn law_summary_names_league_type(
    l: League,
    highlights: Option<Seq<char>>,
    extra_rules: Option<Seq<char>>,
)
    ensures
        ({
            let t = match l.settings {
                Some(s) => s.league_type,
                None => None,
            };
            let word = if t == Some(2u32) {
                "dynasty"@
            } else if t == Some(1u32) {
                "keeper"@
            } else if t == Some(0u32) {
                "redraft"@
            } else {
                "fantasy"@
            };
            let sf = if league_is_superflex(l.roster_positions) { " superflex"@ } else { Seq::empty() };
            let head = if team_count(l) > 0 {
                decimal(team_count(l)) + "-team"@ + sf + " "@ + word + " league."@
            } else {
                word + " league."@
            };
            summary_text(l, highlights, extra_rules).take(head.len() as int) == head
        }),
        "dynasty"@ != "keeper"@ && "keeper"@ != "redraft"@ && "dynasty"@ != "redraft"@,
{
    reveal_strlit("dynasty");
    reveal_strlit("keeper");
    reveal_strlit("redraft");
    let sf = if league_is_superflex(l.roster_positions) { " superflex"@ } else { Seq::<char>::empty() };
    let head = if team_count(l) > 0 {
        decimal(team_count(l)) + "-team"@ + sf + " "@ + league_kind(l) + " league."@
    } else {
        league_kind(l) + " league."@
    };
    let full = summary_text(l, highlights, extra_rules);
    let lineup = lineup_text(l.roster_positions);
    let with_lineup = if lineup.len() > 0 && lineup != "Unknown roster format"@ {
        head + " Lineup: "@ + lineup + "."@
    } else {
        head
    };
    assert(with_lineup.take(head.len() as int) =~= head);
    let with_scoring = match highlights {
        Some(h) => with_lineup + " Scoring: "@ + h + "."@,
        None => with_lineup,
    };
    assert(with_scoring.take(head.len() as int) =~= head);
    assert(full.take(head.len() as int) =~= head);
    assert("dynasty"@.len() != "keeper"@.len());
    assert("keeper"@[0] != "redraft"@[0]);
    assert("dynasty"@[0] != "redraft"@[0]);
}

// ───────────── Compact standings ─────────────

/// A roster's wins for the standings (none counts as zero).
pub open spec fn roster_wins(r: Roster) -> int {
    match r.settings {
        Some(s) => s.wins.unwrap_or(0) as int,
        None => 0,
    }
}

/// A roster's points for, in hundredths (none counts as zero).
pub open spec fn roster_points(r: Roster) -> int {
    match r.settings {
        Some(s) => s.fpts.unwrap_or(0) * 100 + s.fpts_decimal.unwrap_or(0),
        None => 0,
    }
}

/// The compact standings of the chat context list more wins first, and on
/// equal wins more points first: of two owned rosters, the one listed
/// earlier has at least as many wins, and at least as many points when the
/// wins are equal.
pub proof fn law_context_standings_by_wins(rosters: Seq<Roster>, order: Seq<usize>)
    requires
        is_ranking(owned_rosters(rosters).map_values(|x: Roster| standing_key(x)), order),
    ensures
        ({
            let owned = owned_rosters(rosters);
            forall|t: int, u: int| 0 <= t < u < order.len() ==> {
                let a = owned[#[trigger] order[t] as int];
                let b = owned[#[trigger] order[u] as int];
                &&& roster_wins(a) >= roster_wins(b)
                &&& roster_wins(a) == roster_wins(b) ==> roster_points(a) >= roster_points(b)
            }
        }),
{
    let owned = owned_rosters(rosters);
    let keys = owned.map_values(|x: Roster| standing_key(x));
    assert forall|t: int, u: int| 0 <= t < u < order.len() implies {
        let a = owned[#[trigger] order[t] as int];
        let b = owned[#[trigger] order[u] as int];
        &&& roster_wins(a) >= roster_wins(b)
        &&& roster_wins(a) == roster_wins(b) ==> roster_points(a) >= roster_points(b)
    } by {
        assert(ranks_before(keys, order[t] as int, order[u] as int));
        assert(keys[order[t] as int] == standing_key(owned[order[t] as int]));
        assert(keys[order[u] as int] == standing_key(owned[order[u] as int]));
    }
}

// ───────────── Answering mentions ─────────────

/// Every new message that names the bot is answered: a message with an id
/// not yet answered, from an author that is neither a bot nor the bot's
/// own user, whose lower-cased text contains the lower-cased bot name (with
/// or without '@'), is answered with its id, its author's name and the
/// question left once the mention is stripped.
pub proof fn law_mentions_are_answered(
    msg: ChatMessage,
    responded: Set<Seq<char>>,
    bot_user_id: Option<Seq<char>>,
    bot_username: Seq<char>,
)
    requires
        msg.message_id is Some,
        !responded.contains(msg.message_id->0@),
        !msg.author_is_bot.unwrap_or(false),
        !(bot_user_id matches Some(b) && msg.author_id matches Some(au) && b == au@),
        has_substring(lowercase(text_or(msg.text, Seq::empty())), lowercase(bot_username)),
    ensures
        message_action_spec(msg, responded, bot_user_id, bot_username) == (
            2int,
            msg.message_id->0@,
            text_or(msg.author_display_name, "Someone"@),
            stripped_question(text_or(msg.text, Seq::empty()), bot_username),
        ),
{
}


// ───────────── All-time totals ─────────────

/// The points against recorded for owner `o`, in hundredths (zero without
/// a row).
pub open spec fn points_against_of(t: Seq<TotalsRow>, o: Seq<char>) -> int {
    match row_index(t, o) {
        Some(i) => t[i].6,
        None => 0,
    }
}

/// The points for recorded for owner `o`, in hundredths (zero without a
/// row).
pub open spec fn points_for_of(t: Seq<TotalsRow>, o: Seq<char>) -> int {
    match row_index(t, o) {
        Some(i) => t[i].5,
        None => 0,
    }
}

/// The seasons, wins and losses recorded for owner `o` (zeros without a
/// row).
pub open spec fn record_of(t: Seq<TotalsRow>, o: Seq<char>) -> (int, int, int) {
    match row_index(t, o) {
        Some(i) => (t[i].2, t[i].3, t[i].4),
        None => (0, 0, 0),
    }
}

/// The seasons, wins and losses of owner `o`'s rosters that have settings:
/// one season per roster.
pub open spec fn rosters_record(rosters: Seq<Roster>, o: Seq<char>) -> (int, int, int)
    decreases rosters.len(),
{
    if rosters.len() == 0 {
        (0, 0, 0)
    } else {
        let r = rosters.last();
        let rest = rosters_record(rosters.drop_last(), o);
        match (r.owner_id, r.settings) {
            (Some(x), Some(s)) => if x@ == o {
                (rest.0 + 1, rest.1 + s.wins.unwrap_or(0), rest.2 + s.losses.unwrap_or(0))
            } else {
                rest
            },
            _ => rest,
        }
    }
}

/// The points scored against owner `o`'s rosters that have settings, in
/// hundredths.
pub open spec fn rosters_points_against(rosters: Seq<Roster>, o: Seq<char>) -> int
    decreases rosters.len(),
{
    if rosters.len() == 0 {
        0
    } else {
        let r = rosters.last();
        rosters_points_against(rosters.drop_last(), o) + match (r.owner_id, r.settings) {
            (Some(x), Some(s)) => if x@ == o {
                s.fpts_against.unwrap_or(0) * 100 + s.fpts_against_decimal.unwrap_or(0)
            } else {
                0
            },
            _ => 0,
        }
    }
}

/// The points scored by owner `o`'s rosters that have settings, in
/// hundredths.
pub open spec fn rosters_points_for(rosters: Seq<Roster>, o: Seq<char>) -> int
    decreases rosters.len(),
{
    if rosters.len() == 0 {
        0
    } else {
        let r = rosters.last();
        rosters_points_for(rosters.drop_last(), o) + match (r.owner_id, r.settings) {
            (Some(x), Some(s)) => if x@ == o {
                s.fpts.unwrap_or(0) * 100 + s.fpts_decimal.unwrap_or(0)
            } else {
                0
            },
            _ => 0,
        }
    }
}

proof fn lemma_row_index_found(t: Seq<TotalsRow>, o: Seq<char>)
    ensures
        row_index(t, o) matches Some(i) ==> 0 <= i < t.len() && t[i].0 == o,
        row_index(t, o) is None ==> forall|j: int| 0 <= j < t.len() ==> t[j].0 != o,
    decreases t.len(),
{
    if t.len() > 0 {
        lemma_row_index_found(t.drop_first(), o);
        assert forall|j: int| 0 < j < t.len() implies t[j] == t.drop_first()[j - 1] by {}
    }
}

proof fn lemma_row_index_update(t: Seq<TotalsRow>, i: int, x: TotalsRow, o: Seq<char>)
    requires
        0 <= i < t.len(),
        x.0 == t[i].0,
    ensures
        row_index(t.update(i, x), o) == row_index(t, o),
    decreases t.len(),
{
    if i > 0 {
        assert(t.update(i, x).drop_first() =~= t.drop_first().update(i - 1, x));
        lemma_row_index_update(t.drop_first(), i - 1, x, o);
    } else {
        assert(t.update(i, x).drop_first() =~= t.drop_first());
    }
}

proof fn lemma_row_index_push(t: Seq<TotalsRow>, x: TotalsRow, o: Seq<char>)
    ensures
        row_index(t.push(x), o) == match row_index(t, o) {
            Some(i) => Some(i),
            None => if x.0 == o { Some(t.len() as int) } else { None },
        },
    decreases t.len(),
{
    if t.len() == 0 {
        assert(t.push(x).drop_first() =~= Seq::<TotalsRow>::empty());
    } else {
        assert(t.push(x).drop_first() =~= t.drop_first().push(x));
        lemma_row_index_push(t.drop_first(), x, o);
    }
}

/// Adding one roster's season changes the owner's points for and against
/// by that roster's, and no other owner's.
proof fn lemma_add_roster_points(t: Seq<TotalsRow>, owner: Seq<char>, name: Seq<char>, s: RosterSettings, o: Seq<char>)
    ensures
        points_against_of(add_roster(t, owner, name, s), o) == points_against_of(t, o) + if o == owner {
            s.fpts_against.unwrap_or(0) * 100 + s.fpts_against_decimal.unwrap_or(0)
        } else {
            0
        },
        points_for_of(add_roster(t, owner, name, s), o) == points_for_of(t, o) + if o == owner {
            s.fpts.unwrap_or(0) * 100 + s.fpts_decimal.unwrap_or(0)
        } else {
            0
        },
        record_of(add_roster(t, owner, name, s), o) == if o == owner {
            (
                record_of(t, o).0 + 1,
                record_of(t, o).1 + s.wins.unwrap_or(0),
                record_of(t, o).2 + s.losses.unwrap_or(0),
            )
        } else {
            record_of(t, o)
        },
{
    lemma_row_index_found(t, owner);
    lemma_row_index_found(t, o);
    match row_index(t, owner) {
        Some(i) => {
            lemma_row_index_update(t, i, bump(t[i], s), o);
            if o != owner {
                if let Some(j) = row_index(t, o) {
                    assert(j != i);
                }
            }
        },
        None => {
            let x = bump((owner, name, 0, 0, 0, 0, 0, 0), s);
            lemma_row_index_push(t, x, o);
        },
    }
}

/// All-time totals are the sums of the seasons: after a season's rosters
/// are added, each owner's points against equal what they were plus the
/// points scored against that owner's rosters with settings, its points for
/// likewise plus the points those rosters scored, and its seasons, wins and
/// losses grow by one season and by the wins and losses of each such
/// roster. The points against never take in what the rosters scored.
pub proof fn law_totals_add_up_points(t: Seq<TotalsRow>, users: Seq<User>, rosters: Seq<Roster>, o: Seq<char>)
    ensures
        points_against_of(add_rosters(t, users, rosters), o) == points_against_of(t, o) + rosters_points_against(rosters, o),
        points_for_of(add_rosters(t, users, rosters), o) == points_for_of(t, o) + rosters_points_for(rosters, o),
        record_of(add_rosters(t, users, rosters), o) == (
            record_of(t, o).0 + rosters_record(rosters, o).0,
            record_of(t, o).1 + rosters_record(rosters, o).1,
            record_of(t, o).2 + rosters_record(rosters, o).2,
        ),
    decreases rosters.len(),
{
    if rosters.len() > 0 {
        law_totals_add_up_points(t, users, rosters.drop_last(), o);
        let before = add_rosters(t, users, rosters.drop_last());
        let r = rosters.last();
        match (r.owner_id, r.settings) {
            (Some(x), Some(st)) => {
                lemma_add_roster_points(
                    before,
                    x@,
                    match display_of(users, x@) {
                        Some(n) => n,
                        None => "Unknown"@,
                    },
                    st,
                    o,
                );
            },
            _ => {},
        }
    }
}


/// The chat context opens with the league's name ("Unknown League" when
/// it has none) and the word for its type: "Dynasty" for type 2, "Keeper"
/// for type 1, "Redraft" for type 0, "Unknown" for any other or none.
pub proof fn law_context_names_league_type(
    l: League,
    nfl: NflState,
    scoring: Seq<char>,
    labels: Seq<Seq<char>>,
    order: Seq<usize>,
)
    ensures
        ({
            let t = match l.settings {
                Some(s) => s.league_type,
                None => None,
            };
            let word = if t == Some(2u32) {
                "Dynasty"@
            } else if t == Some(1u32) {
                "Keeper"@
            } else if t == Some(0u32) {
                "Redraft"@
            } else {
                "Unknown"@
            };
            let head = "League: "@ + text_or(l.name, "Unknown League"@) + " ("@ + word + ", "@;
            context_text(l, nfl, scoring, labels, order).take(head.len() as int) == head
        }),
{
    let head = "League: "@ + text_or(l.name, "Unknown League"@) + " ("@ + context_league_type(l) + ", "@;
    assert(context_text(l, nfl, scoring, labels, order).take(head.len() as int) =~= head);
}

} // verus!
