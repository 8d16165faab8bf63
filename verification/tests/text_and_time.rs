use p2p_chat::clock::{format_time, now, now_secs};
use p2p_chat::text::{decimal_string, is_whitespace, join_from, split_words, trim_str};
use p2p_chat::order::str_lt;

#[test]
fn format_time_examples() {
    assert_eq!(format_time(0), "00:00:00");
    assert_eq!(format_time(3661), "01:01:01");
    assert_eq!(format_time(86399), "23:59:59");
    assert_eq!(format_time(86400 + 45296), "12:34:56");
}

#[test]
fn clock_reads_current_time() {
    // Some time after 2020-01-01.
    assert!(now_secs() > 1_577_836_800);
    assert!(now() > 1_577_836_800);
}

#[test]
fn decimal_rendering() {
    assert_eq!(decimal_string(0), "0");
    assert_eq!(decimal_string(9000), "9000");
    assert_eq!(decimal_string(u64::MAX), u64::MAX.to_string());
}

#[test]
fn whitespace_trimming_and_words() {
    assert!(is_whitespace(' '));
    assert!(is_whitespace('\u{3000}'));
    assert!(!is_whitespace('x'));
    assert_eq!(trim_str("  send bob  hi \t"), "send bob  hi");
    let ws = split_words("  send  bob hello   world ");
    assert_eq!(ws, vec!["send".to_string(), "bob".to_string(), "hello".to_string(), "world".to_string()]);
    assert_eq!(join_from(&ws, 2), "hello world");
    assert!(split_words("   ").is_empty());
}

#[test]
fn text_order_is_lexicographic() {
    assert!(str_lt("alice", "bob"));
    assert!(str_lt("al", "alice"));
    assert!(!str_lt("bob", "alice"));
    assert!(!str_lt("same", "same"));
}
