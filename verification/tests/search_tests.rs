use sleeper_bot::chat::ChatMessage;
use sleeper_bot::search::{message_line, message_passes, MessageFilter, MessageSearch};

fn msg(id: Option<&str>, author: Option<&str>, text: Option<&str>, created: Option<i64>) -> ChatMessage {
    ChatMessage {
        message_id: id.map(|s| s.to_string()),
        author_id: None,
        author_display_name: author.map(|s| s.to_string()),
        author_is_bot: None,
        text: text.map(|s| s.to_string()),
        created,
    }
}

#[test]
fn test_message_filter_dates_and_case() {
    let f = MessageFilter::new(Some("NiCk"), Some("Bet"), Some("2024-01-01"), Some("2024-01-02"));
    assert_eq!(f.username.as_deref(), Some("nick"));
    assert_eq!(f.keyword.as_deref(), Some("bet"));
    assert_eq!(f.after_ms, Some(1_704_067_200_000));
    assert_eq!(f.before_ms, Some(1_704_239_999_000));
    let bad = MessageFilter::new(None, None, Some("Jan 1"), Some("2024-13-01"));
    assert_eq!(bad.after_ms, None);
    assert_eq!(bad.before_ms, None);
}

#[test]
fn test_message_passes() {
    let f = MessageFilter::new(Some("nick"), Some("bet"), Some("2024-01-01"), None);
    assert!(message_passes(&f, &msg(None, Some("Big NICK"), Some("I BET you"), Some(1_704_067_200_000))));
    assert!(!message_passes(&f, &msg(None, Some("Nick"), Some("I bet"), Some(1_704_067_199_999))));
    assert!(!message_passes(&f, &msg(None, Some("Mike"), Some("bet"), Some(1_704_067_200_000))));
    assert!(!message_passes(&f, &msg(None, Some("Nick"), None, Some(1_704_067_200_000))));
    let none = MessageFilter::new(None, None, None, None);
    assert!(message_passes(&none, &msg(None, None, None, None)));
}

#[test]
fn test_message_line_dates() {
    assert_eq!(
        message_line(&msg(None, Some("Nick"), Some("hi"), Some(1_704_067_260_000))),
        "[2024-01-01 00:01 UTC] Nick: hi"
    );
    assert_eq!(
        message_line(&msg(None, None, None, Some(1_704_067_260))),
        "[2024-01-01 00:01 UTC] Unknown: "
    );
    assert_eq!(message_line(&msg(None, Some("A"), Some("b"), Some(0))), "[unknown date] A: b");
    assert_eq!(message_line(&msg(None, Some("A"), Some("b"), None)), "[unknown date] A: b");
}

#[test]
fn test_paging_and_report() {
    let f = MessageFilter::new(None, Some("bet"), None, None);
    let mut s = MessageSearch::new();
    assert_eq!(s.next_page(), Some(None));
    let page1 = vec![
        msg(Some("m3"), Some("Nick"), Some("bet you $20"), Some(0)),
        msg(Some("m2"), Some("Mike"), Some("no"), Some(0)),
    ];
    s.take_page(&f, &page1);
    assert_eq!(s.next_page(), Some(Some("m2".to_string())));
    let page2 = vec![msg(Some("m1"), Some("Mike"), Some("BET accepted"), Some(0))];
    s.take_page(&f, &page2);
    assert_eq!(s.next_page(), Some(Some("m1".to_string())));
    s.take_page(&f, &vec![]);
    assert_eq!(s.next_page(), None);
    assert_eq!(s.fetched, 3);
    assert_eq!(
        s.report(None, Some("bet"), None, None),
        "Found 2 matching message(s) (searched 3 messages):\n\n[unknown date] Mike: BET accepted\n[unknown date] Nick: bet you $20\n"
    );
}

#[test]
fn test_paging_stops_without_cursor_and_reports_filters() {
    let f = MessageFilter::new(Some("zed"), None, None, None);
    let mut s = MessageSearch::new();
    s.take_page(&f, &vec![msg(None, Some("Nick"), Some("x"), None)]);
    assert_eq!(s.next_page(), None);
    assert_eq!(
        s.report(Some("zed"), Some("bet"), Some("2024-01-01"), Some("2024-02-01")),
        "No messages found from user \"zed\", containing \"bet\", after 2024-01-01, before 2024-02-01 (searched 1 messages)."
    );
    assert_eq!(s.report(None, None, None, None), "No messages found (searched 1 messages).");
}

#[test]
fn test_paging_page_limit() {
    let f = MessageFilter::new(None, None, None, None);
    let mut s = MessageSearch::new();
    let mut pages = 0;
    while s.next_page().is_some() {
        s.take_page(&f, &vec![msg(Some("m"), Some("A"), Some("t"), None)]);
        pages += 1;
    }
    assert_eq!(pages, 40);
    let mut s = MessageSearch::new();
    let big: Vec<ChatMessage> = (0..600).map(|_| msg(Some("m"), None, None, None)).collect();
    s.take_page(&f, &big);
    s.take_page(&f, &big);
    assert_eq!(s.fetched, 1000);
    assert_eq!(s.next_page(), None);
}

#[test]
fn test_search_reads_at_most_a_thousand_messages() {
    let f = MessageFilter::new(None, None, None, None);
    let mut s = MessageSearch::new();
    let mut calls = 0;
    while s.next_page().is_some() {
        let page: Vec<ChatMessage> = (0..30).map(|_| msg(Some("m"), Some("A"), Some("t"), None)).collect();
        s.take_page(&f, &page);
        calls += 1;
    }
    assert_eq!(calls, 34);
    assert_eq!(s.fetched, 1000);
    assert_eq!(s.matches.len(), 1000);
}
