use p2p_chat::registry::{accept_peer_addr, candidate_ports, default_port, normalize_peer_addr, parse_peer_arg, peer_arg_error_text, KnownPeer, PeerArgError, PeerRegistry, SocketParts, DEFAULT_PORTS};

fn peer(id: &str, name: &str, addr: &str) -> KnownPeer {
    KnownPeer { node_id: id.to_string(), username: name.to_string(), address: addr.to_string() }
}

fn parts(text: &str, ip: &str, port: u16) -> Option<SocketParts> {
    Some(SocketParts { text: text.to_string(), ip: ip.to_string(), port })
}

#[test]
fn default_ports_in_order() {
    assert_eq!(DEFAULT_PORTS, [9000, 9001, 9002, 9003, 9004]);
    assert!(default_port(9000));
    assert!(default_port(9004));
    assert!(!default_port(9005));
    assert!(!default_port(8888));
}

#[test]
fn default_port_address_is_stored_as_ip() {
    assert_eq!(normalize_peer_addr("192.168.1.5:9000", parts("192.168.1.5:9000", "192.168.1.5", 9000)), "192.168.1.5");
    assert_eq!(normalize_peer_addr("[::1]:9003", parts("[::1]:9003", "::1", 9003)), "::1");
}

#[test]
fn custom_port_address_is_stored_verbatim() {
    assert_eq!(normalize_peer_addr("192.168.1.6:8888", parts("192.168.1.6:8888", "192.168.1.6", 8888)), "192.168.1.6:8888");
    assert_eq!(normalize_peer_addr("not an address", None), "not an address");
}

#[test]
fn upsert_then_get_and_sorted_all() {
    let mut reg = PeerRegistry::new("known_peers.json".to_string());
    assert_eq!(reg.len(), 0);
    reg.upsert(peer("charlie", "Charlie", "10.0.0.3"));
    reg.upsert(peer("alice", "Alice", "192.168.1.5"));
    reg.upsert(peer("bob", "Bob", "10.0.0.2:8888"));
    reg.upsert(peer("alice", "Alice2", "192.168.1.9"));
    assert_eq!(reg.len(), 3);
    let a = reg.get("alice").unwrap();
    assert_eq!(a.username, "Alice2");
    assert_eq!(a.address, "192.168.1.9");
    assert!(reg.get("dave").is_none());
    let ids: Vec<String> = reg.all().iter().map(|p| p.node_id.clone()).collect();
    assert_eq!(ids, vec!["alice", "bob", "charlie"]);
    assert_eq!(reg.path(), "known_peers.json");
}

#[test]
fn load_keeps_last_duplicate() {
    let saved = vec![peer("bob", "Bob", "1.1.1.1"), peer("alice", "A", "2.2.2.2"), peer("bob", "Bobby", "3.3.3.3")];
    let reg = PeerRegistry::load("p.json".to_string(), Some(saved));
    assert_eq!(reg.len(), 2);
    assert_eq!(reg.get("bob").unwrap().username, "Bobby");
    let empty = PeerRegistry::load("p.json".to_string(), None);
    assert_eq!(empty.len(), 0);
}

#[test]
fn parse_peer_arg_splits_at_last_colon() {
    assert_eq!(parse_peer_arg("192.168.1.5:9000:alice"), Ok(("192.168.1.5:9000".to_string(), "alice".to_string())));
    assert_eq!(parse_peer_arg("[::1]:9000:bob"), Ok(("[::1]:9000".to_string(), "bob".to_string())));
    assert_eq!(parse_peer_arg("noport"), Err(PeerArgError::MissingColon));
    assert_eq!(parse_peer_arg("1.2.3.4:9000:"), Err(PeerArgError::EmptyNodeId));
}

#[test]
fn peer_arg_error_messages() {
    assert_eq!(peer_arg_error_text(PeerArgError::MissingColon, "x"), "Invalid format. Expected: ip:port:node_id or [ipv6]:port:node_id");
    assert_eq!(peer_arg_error_text(PeerArgError::EmptyNodeId, "1.2.3.4:9000:"), "node_id cannot be empty in '1.2.3.4:9000:'");
}

#[test]
fn upsert_counts_only_new_ids() {
    let mut reg = PeerRegistry::new("known_peers.json".to_string());
    reg.upsert(peer("bob", "Bob", "10.0.0.2"));
    assert_eq!(reg.len(), 1);
    reg.upsert(peer("bob", "Bobby", "10.0.0.3"));
    assert_eq!(reg.len(), 1);
    reg.upsert(peer("alice", "Alice", "10.0.0.4"));
    assert_eq!(reg.len(), 2);
}

#[test]
fn reloading_saved_entries_gives_same_registry() {
    let mut reg = PeerRegistry::new("known_peers.json".to_string());
    reg.upsert(peer("charlie", "Charlie", "10.0.0.3"));
    reg.upsert(peer("alice", "Alice", "192.168.1.5"));
    let saved: Vec<KnownPeer> = reg.all().into_iter().cloned().collect();
    let again = PeerRegistry::load("known_peers.json".to_string(), Some(saved));
    let a: Vec<(String, String, String)> =
        reg.all().iter().map(|p| (p.node_id.clone(), p.username.clone(), p.address.clone())).collect();
    let b: Vec<(String, String, String)> =
        again.all().iter().map(|p| (p.node_id.clone(), p.username.clone(), p.address.clone())).collect();
    assert_eq!(a, b);
}

#[test]
fn start_up_peer_address_is_checked() {
    assert_eq!(
        accept_peer_addr("192.168.1.5:9000", parts("192.168.1.5:9000", "192.168.1.5", 9000), ""),
        Ok("192.168.1.5:9000".to_string())
    );
    assert_eq!(
        accept_peer_addr("nohost", None, "invalid socket address syntax"),
        Err("Invalid address 'nohost': invalid socket address syntax".to_string())
    );
}

#[test]
fn listening_ports_to_try() {
    assert_eq!(candidate_ports(8888), vec![8888]);
    assert_eq!(candidate_ports(0), vec![9000, 9001, 9002, 9003, 9004]);
}
