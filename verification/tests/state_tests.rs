use sleeper_bot::chat::{
    classify_message, compose_agent_message, finish_reply, strip_mention, ChatMessage, MessageAction,
};
use sleeper_bot::news::{decode_xml_entities, urlencode};
use sleeper_bot::sleeper::Transaction;
use sleeper_bot::state::{ChatState, ReviewState};
use sleeper_bot::trade_analyzer::{select_new_trades, trade_cutoff_ms};

fn trade(id: &str, status: &str, created: u64) -> Transaction {
    Transaction {
        tx_type: Some("trade".to_string()),
        transaction_id: Some(id.to_string()),
        status: Some(status.to_string()),
        roster_ids: Some(vec![1, 2]),
        adds: None,
        drops: None,
        draft_picks: None,
        created: Some(created),
        status_updated: None,
    }
}

#[test]
fn test_trades_are_reviewed_once() {
    let day = 86_400_000u64;
    let now = 100 * day;
    let cutoff = trade_cutoff_ms(now, 3);
    assert_eq!(cutoff, 97 * day);
    let txs = vec![
        trade("a", "complete", now - day),
        trade("b", "pending", now - day),
        trade("c", "complete", now - 5 * day),
        trade("d", "complete", now),
    ];
    let mut state = ReviewState::with_reviewed(vec![]);
    let selected = select_new_trades(&txs, &state, cutoff);
    assert_eq!(selected, vec![0, 3]);
    for p in &selected {
        state.mark_reviewed(txs[*p].id());
    }
    assert!(state.is_reviewed("a"));
    assert!(state.is_reviewed("d"));
    assert!(!state.is_reviewed("b"));
    assert!(select_new_trades(&txs, &state, cutoff).is_empty());
    // Marking twice keeps one entry.
    state.mark_reviewed("a");
    assert_eq!(state.reviewed_ids().len(), 2);
    assert_eq!(trade_cutoff_ms(day, 3), 0);
}

#[test]
fn test_chat_state_keeps_three_exchanges() {
    let mut s = ChatState::with_responded(vec!["m1".to_string()]);
    assert!(s.has_responded("m1"));
    assert!(!s.has_responded("m2"));
    s.mark_responded("m2");
    assert!(s.has_responded("m2"));
    for i in 0..4 {
        s.add_exchange("u1", format!("q{i}"), format!("a{i}"));
    }
    s.add_exchange("u2", "hi".to_string(), "hello".to_string());
    assert_eq!(s.get_exchanges("u1"), vec![("q1", "a1"), ("q2", "a2"), ("q3", "a3")]);
    assert_eq!(s.get_exchanges("u2"), vec![("hi", "hello")]);
    assert!(s.get_exchanges("u3").is_empty());
}

fn message(id: Option<&str>, author_id: Option<&str>, text: &str, is_bot: Option<bool>) -> ChatMessage {
    ChatMessage {
        message_id: id.map(|s| s.to_string()),
        author_id: author_id.map(|s| s.to_string()),
        author_display_name: Some("Nick".to_string()),
        author_is_bot: is_bot,
        text: Some(text.to_string()),
        created: None,
    }
}

#[test]
fn test_messages_answered_once_and_never_own() {
    let mut state = ChatState::with_responded(vec![]);
    let bot = "tradegimp210";
    let m = message(Some("m1"), Some("u1"), "@TradeGimp210 who wins?", None);
    match classify_message(&m, &state, Some("botid"), bot) {
        MessageAction::Answer { message_id, author, question } => {
            assert_eq!(message_id, "m1");
            assert_eq!(author, "Nick");
            assert_eq!(question, "who wins?");
        }
        other => panic!("unexpected {other:?}"),
    }
    state.mark_responded("m1");
    assert!(matches!(classify_message(&m, &state, Some("botid"), bot), MessageAction::Ignore));
    let own = message(Some("m2"), Some("botid"), "@tradegimp210 hi", None);
    assert!(matches!(
        classify_message(&own, &state, Some("botid"), bot),
        MessageAction::MarkHandled { .. }
    ));
    let from_bot = message(Some("m3"), Some("x"), "@tradegimp210 hi", Some(true));
    assert!(matches!(
        classify_message(&from_bot, &state, None, bot),
        MessageAction::MarkHandled { .. }
    ));
    let unrelated = message(Some("m4"), Some("u1"), "good game", None);
    assert!(matches!(classify_message(&unrelated, &state, None, bot), MessageAction::Ignore));
    let no_id = message(None, Some("u1"), "@tradegimp210", None);
    assert!(matches!(classify_message(&no_id, &state, None, bot), MessageAction::Ignore));
}

#[test]
fn test_compose_agent_message() {
    let history = vec![("q1", "a1"), ("q2", "a2")];
    assert_eq!(
        compose_agent_message("CTX", &history, "Nick", "who wins?"),
        "League context: CTX\n\nRecent conversation with this user:\nUser: q1\nYou: a1\n\nUser: q2\nYou: a2\n\nNick tagged you in the league chat and said:\n\"who wins?\""
    );
    assert_eq!(
        compose_agent_message("CTX", &vec![], "debug_user", "q"),
        "League context: CTX\n\ndebug_user tagged you in the league chat and said:\n\"q\""
    );
}

#[test]
fn test_text_laws_on_examples() {
    // Without the bot's name, stripping only trims.
    assert_eq!(strip_mention("  who should I start?  ", "tradegimp210"), "who should I start?");
    // Without '&', decoding changes nothing.
    assert_eq!(decode_xml_entities("plain <b> text"), "plain <b> text");
    // URL encoding leaves only safe characters.
    let e = urlencode("Ja'Marr Chase: WR1? 100% / ñ");
    assert!(e.chars().all(|c| c.is_ascii_alphanumeric() || "-_.~+%".contains(c)));
    assert_eq!(e, "Ja%27Marr+Chase%3A+WR1%3F+100%25+%2F+%C3%B1");
}

#[test]
fn test_finish_reply_records_and_marks() {
    let mut state = ChatState::with_responded(vec![]);
    let post = finish_reply(&mut state, "m1", "u1", "who wins?".to_string(), Ok("Nick wins.".to_string()));
    assert_eq!(post, "Nick wins.");
    assert!(state.has_responded("m1"));
    assert_eq!(state.get_exchanges("u1"), vec![("who wins?", "Nick wins.")]);
    let post = finish_reply(&mut state, "m2", "u1", "again?".to_string(), Err("timeout".to_string()));
    assert_eq!(post, "I'm having trouble thinking right now. Try again in a bit.");
    assert!(state.has_responded("m2"));
    assert_eq!(state.get_exchanges("u1").len(), 1);
}
