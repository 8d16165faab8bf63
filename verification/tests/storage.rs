use p2p_chat::crypto::{generate_salt, hash_password};
use p2p_chat::storage::{authenticate, history_peer_id, join, new_profile, sanitize, Profile, Storage};

#[test]
fn sanitize_replaces_unsafe_characters() {
    assert_eq!(sanitize("alice-01_x"), "alice-01_x");
    assert_eq!(sanitize("a/b c.d"), "a_b_c_d");
    assert_eq!(sanitize("héllo"), "héllo");
    assert_eq!(sanitize("../a b"), "___a_b");
    assert_eq!(sanitize(&sanitize("../a b")), sanitize("../a b"));
}

#[test]
fn join_adds_one_separator() {
    assert_eq!(join("/data", "users"), "/data/users");
    assert_eq!(join("/data/", "users"), "/data/users");
    assert_eq!(join("", "users"), "users");
}

#[test]
fn storage_layout_paths() {
    let mut s = Storage::new("/cfg/com.p2pchat.app".to_string());
    assert_eq!(s.log_path(), "/cfg/com.p2pchat.app/p2p-chat.log");
    assert_eq!(s.data_dir(), "/cfg/com.p2pchat.app");
    assert_eq!(s.user_dir("bob/../x"), "/cfg/com.p2pchat.app/users/bob____x");
    assert_eq!(s.profile_path("alice"), "/cfg/com.p2pchat.app/users/alice/profile.json");
    s.set_active_user("alice", [1u8; 32]);
    assert_eq!(s.active_dir(), "/cfg/com.p2pchat.app/users/alice");
    assert_eq!(s.peers_path(), "/cfg/com.p2pchat.app/users/alice/peers.json");
    assert_eq!(s.history_path("bob"), "/cfg/com.p2pchat.app/users/alice/history/bob.bin");
    assert_eq!(s.key(), [1u8; 32]);
}

#[test]
fn history_file_names_give_peer_ids() {
    assert_eq!(history_peer_id("bob.bin"), Some("bob".to_string()));
    assert_eq!(history_peer_id("a.b.bin"), Some("a.b".to_string()));
    assert_eq!(history_peer_id("bob.json"), None);
    assert_eq!(history_peer_id(".bin"), None);
    assert_eq!(history_peer_id("bob"), None);
}

#[test]
fn sealed_history_opens_again() {
    let mut s = Storage::new("/d".to_string());
    s.set_active_user("alice", [3u8; 32]);
    let sealed = s.seal_history(b"[]").unwrap();
    assert_ne!(sealed, b"[]".to_vec());
    assert_eq!(s.open_history(&sealed), Ok(b"[]".to_vec()));
}

#[test]
fn authenticate_checks_the_password() {
    let salt = generate_salt().unwrap();
    let profile = Profile {
        node_id: "alice".to_string(),
        username: "Alice".to_string(),
        port: 9000,
        password_hash: hash_password("pw", &salt),
        salt: salt.clone(),
    };
    let (ok, key) = authenticate("alice", Some(profile.clone()), "pw").unwrap();
    assert_eq!(ok.username, "Alice");
    assert_eq!(key, p2p_chat::crypto::derive_key("pw", &salt));
    assert_eq!(authenticate("alice", Some(profile), "nope").unwrap_err(), "Incorrect password");
    assert_eq!(authenticate("carol", None, "pw").unwrap_err(), "Profile 'carol' not found");
}

#[test]
fn new_profile_hashes_with_fresh_salt() {
    let (p, key) = new_profile("alice".into(), "Alice".into(), 9001, "pw").unwrap();
    assert_eq!(p.node_id, "alice");
    assert_eq!(p.port, 9001);
    assert_eq!(p.salt.len(), 64);
    assert_eq!(p.password_hash, hash_password("pw", &p.salt));
    assert_ne!(p.password_hash, "pw");
    let (_, again) = authenticate("alice", Some(p.clone()), "pw").unwrap();
    assert_eq!(again, key);
    let (q, _) = new_profile("alice".into(), "Alice".into(), 9001, "pw").unwrap();
    assert_ne!(q.salt, p.salt);
}
