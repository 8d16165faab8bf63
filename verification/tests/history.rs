use p2p_chat::api::{Content, MessageInfo, MessageStatus};
use p2p_chat::history::{HistoryManager, HISTORY_LIMIT};

fn msg(id: u64, ts: u64) -> MessageInfo {
    MessageInfo {
        msg_id: format!("m{}", id),
        from: "alice".to_string(),
        content: Content::Text(format!("text {}", id)),
        timestamp: ts,
        status: MessageStatus::Sent,
    }
}

fn ids(v: &[MessageInfo]) -> Vec<String> {
    v.iter().map(|m| m.msg_id.clone()).collect()
}

#[test]
fn history_keeps_latest_128() {
    assert_eq!(HISTORY_LIMIT, 128);
    let mut h = HistoryManager::new(vec![]);
    for i in 0..130u64 {
        h.add_message("alice", msg(i, i));
    }
    let all = h.get_history("alice", None, 1000);
    assert_eq!(all.len(), 128);
    assert_eq!(all[0].msg_id, "m2");
    assert_eq!(all[127].msg_id, "m129");
}

#[test]
fn saved_history_is_trimmed_on_load() {
    let saved: Vec<MessageInfo> = (0..200u64).map(|i| msg(i, i)).collect();
    let h = HistoryManager::new(vec![("bob".to_string(), saved)]);
    let all = h.persist("bob").unwrap();
    assert_eq!(all.len(), 128);
    assert_eq!(all[0].msg_id, "m72");
}

#[test]
fn history_pages_latest_first_window() {
    let mut h = HistoryManager::new(vec![]);
    for i in 1..=5u64 {
        h.add_message("alice", msg(i, i * 10));
    }
    assert_eq!(ids(&h.get_history("alice", None, 2)), vec!["m4", "m5"]);
    assert_eq!(ids(&h.get_history("alice", Some(35), 2)), vec!["m2", "m3"]);
    assert_eq!(ids(&h.get_history("alice", Some(10), 5)), Vec::<String>::new());
    assert!(h.get_history("nobody", None, 10).is_empty());
    assert!(h.get_history("alice", None, 0).is_empty());
}

#[test]
fn read_back_latest_after_add() {
    let mut h = HistoryManager::new(vec![("alice".to_string(), vec![msg(1, 1)])]);
    h.add_message("alice", msg(2, 2));
    let last = h.get_history("alice", None, 1);
    assert_eq!(ids(&last), vec!["m2"]);
}

#[test]
fn persist_reports_each_conversation() {
    let mut h = HistoryManager::new(vec![]);
    h.add_message("alice", msg(1, 1));
    h.add_message("bob", msg(2, 2));
    h.add_message("alice", msg(3, 3));
    assert!(h.persist("carol").is_none());
    assert_eq!(ids(&h.persist("alice").unwrap()), vec!["m1", "m3"]);
    let mut all = h.persist_all();
    all.sort_by(|a, b| a.0.cmp(&b.0));
    assert_eq!(all.len(), 2);
    assert_eq!(all[0].0, "alice");
    assert_eq!(ids(&all[1].1), vec!["m2"]);
}
