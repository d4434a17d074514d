use sleeper_bot::chat::{is_mention, strip_mention};

#[test]
fn test_is_mention() {
    let bot = "tradegimp210";
    assert!(is_mention("hey @tradegimp210 who should I start?", bot));
    assert!(is_mention("@tradegimp210", bot));
    assert!(is_mention("yo tradegimp210 what do you think?", bot));
    assert!(!is_mention("hey guys what's up", bot));
}

#[test]
fn test_strip_mention() {
    let bot = "tradegimp210";
    assert_eq!(
        strip_mention("@tradegimp210 who should I start at flex?", bot),
        "who should I start at flex?"
    );
    assert_eq!(
        strip_mention("hey @tradegimp210 thoughts on this trade?", bot),
        "hey  thoughts on this trade?"
    );
}

#[test]
fn test_strip_mention_ignores_case() {
    assert_eq!(strip_mention("@TradeGimp210 who should I start?", "tradegimp210"), "who should I start?");
    assert_eq!(strip_mention("TRADEGIMP210, rank my team", "TradeGimp210"), ", rank my team");
    assert_eq!(strip_mention("Who Should I Start?", "tradegimp210"), "Who Should I Start?");
}

#[test]
fn test_strip_mention_trims_unicode_white_space() {
    assert_eq!(strip_mention("\u{3000} hi \t\u{2028}", "tradegimp210"), "hi");
    assert_eq!(strip_mention(" a", "tradegimp210"), "a");
}
