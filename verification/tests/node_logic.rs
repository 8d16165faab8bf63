use p2p_chat::event::{AppEvent, NodeCommand};
use p2p_chat::message::P2PMessage;
use p2p_chat::node::{
    accept_handshake, broadcast_report, connect_failed, connection_closed, direct_sent, loaded_notice, lookup_sender,
    on_peer_message, plan_command, record_handshake, stored_address_via, ConnectVia, Failure, NodeAction, SenderLookup,
};
use p2p_chat::registry::{KnownPeer, PeerRegistry, SocketParts};

fn reg_with_alice() -> PeerRegistry {
    let mut r = PeerRegistry::new("k.json".into());
    r.upsert(KnownPeer { node_id: "alice".into(), username: "Alice".into(), address: "192.168.1.5".into() });
    r
}

fn output_lines(acts: &[NodeAction]) -> Vec<String> {
    acts.iter()
        .map(|a| match a {
            NodeAction::Emit(AppEvent::CommandOutput(s)) => s.clone(),
            other => panic!("not output: {:?}", other),
        })
        .collect()
}

#[test]
fn quit_shuts_down() {
    let (acts, stop) = plan_command(NodeCommand::Quit, &vec![], &reg_with_alice());
    assert!(stop);
    assert!(matches!(&acts[0], NodeAction::Shutdown { reason } if reason == "Node shutting down"));
    assert!(matches!(acts[1], NodeAction::Emit(AppEvent::NodeShutdown)));
}

#[test]
fn list_connected_and_known_peers() {
    let reg = reg_with_alice();
    let (acts, _) = plan_command(NodeCommand::ListConnected, &vec![], &reg);
    assert_eq!(output_lines(&acts), vec!["  No connected peers"]);
    let (acts, _) = plan_command(NodeCommand::ListConnected, &vec!["bob".to_string()], &reg);
    assert_eq!(output_lines(&acts), vec!["Connected peers:", "  - bob"]);
    let (acts, _) = plan_command(NodeCommand::ListPeers, &vec!["alice".to_string()], &reg);
    assert_eq!(output_lines(&acts), vec!["Known peers:", "  - alice (Alice) @ 192.168.1.5  [online]"]);
    let (acts, _) = plan_command(NodeCommand::ListPeers, &vec![], &PeerRegistry::new("x".into()));
    assert_eq!(output_lines(&acts), vec!["  No known peers in registry"]);
}

#[test]
fn connect_by_id_uses_registry() {
    let reg = reg_with_alice();
    let (acts, _) = plan_command(NodeCommand::ConnectById { node_id: "alice".into() }, &vec![], &reg);
    assert!(matches!(&acts[0], NodeAction::Connect { target, via: ConnectVia::AddrOrIp, failure: Failure::Target(t) }
        if target == "192.168.1.5" && t == "alice"));
    let (acts, _) = plan_command(NodeCommand::ConnectById { node_id: "zed".into() }, &vec![], &reg);
    assert!(matches!(&acts[0], NodeAction::Emit(AppEvent::SystemNotice(s))
        if s == "Unknown peer 'zed'. Use 'connect <ip>' or 'connect <ip:port>' first."));
}

#[test]
fn chat_reconnects_known_offline_peer() {
    let reg = reg_with_alice();
    let (acts, _) = plan_command(NodeCommand::Chat(Some("alice".into())), &vec![], &reg);
    assert!(matches!(&acts[0], NodeAction::Connect { failure: Failure::Auto(t), .. } if t == "alice"));
    let (acts, _) = plan_command(NodeCommand::Chat(Some("alice".into())), &vec!["alice".to_string()], &reg);
    assert!(acts.is_empty());
}

#[test]
fn handshake_records_normalized_address() {
    let mut reg = PeerRegistry::new("k.json".into());
    let parsed = Some(SocketParts { text: "10.0.0.7:9001".into(), ip: "10.0.0.7".into(), port: 9001 });
    let e = record_handshake(&mut reg, "bob".into(), "Bob".into(), "10.0.0.7:9001", parsed);
    assert!(matches!(e, AppEvent::PeerConnected { ref node_id, .. } if node_id == "bob"));
    assert_eq!(reg.get("bob").unwrap().address, "10.0.0.7");
}

#[test]
fn peer_messages_become_events() {
    let mut reg = reg_with_alice();
    let msg = P2PMessage::Direct { from: "alice".into(), to: Some("me".into()), content: "hi".into(), timestamp: 5 };
    let (evs, end) = on_peer_message("alice", msg, &mut reg, None);
    assert!(!end);
    assert!(matches!(&evs[0], AppEvent::MessageReceived { from_name, .. } if from_name == "Alice"));
    let (evs, end) = on_peer_message("alice", P2PMessage::Disconnect { reason: "bye".into(), timestamp: 1 }, &mut reg, None);
    assert!(end);
    assert!(matches!(&evs[0], AppEvent::PeerDisconnected { reason, .. } if reason == "bye"));
    let (evs, _) = on_peer_message("alice", P2PMessage::Keepalive { timestamp: 1 }, &mut reg, None);
    assert!(evs.is_empty());
}

#[test]
fn first_message_must_be_a_handshake() {
    let mut reg = PeerRegistry::new("k.json".into());
    assert!(accept_handshake(Some(P2PMessage::Keepalive { timestamp: 0 }), &mut reg, None).is_none());
    assert!(accept_handshake(None, &mut reg, None).is_none());
    let hs = P2PMessage::Handshake { node_id: "c".into(), username: "C".into(), listen_addr: "x".into(), timestamp: 0 };
    let (id, _) = accept_handshake(Some(hs), &mut reg, None).unwrap();
    assert_eq!(id, "c");
    assert_eq!(reg.get("c").unwrap().address, "x");
}

#[test]
fn notices_and_reports() {
    assert!(matches!(connection_closed("bob"), AppEvent::PeerDisconnected { reason, .. } if reason == "connection closed"));
    assert!(matches!(connect_failed(&Failure::Ip, "refused"), AppEvent::SystemNotice(s) if s == "IP connect failed: refused"));
    assert!(matches!(connect_failed(&Failure::Target("x".into()), "e"), AppEvent::SystemNotice(s) if s == "Connection to 'x' failed: e"));
    assert_eq!(stored_address_via(true), ConnectVia::Addr);
    assert_eq!(stored_address_via(false), ConnectVia::Ip);
    assert!(loaded_notice(0).is_none());
    assert!(matches!(direct_sent("bob", "hi".into(), 1, "Me".into(), "me".into(), false),
        AppEvent::PeerDisconnected { reason, .. } if reason == "send failed \u{2014} connection lost"));
    let res = vec![("a".to_string(), true), ("b".to_string(), false), ("c".to_string(), true)];
    let evs = broadcast_report(&res, "hey".into(), 9, "Me".into(), "me".into());
    assert_eq!(evs.len(), 2);
    assert!(matches!(&evs[0], AppEvent::PeerDisconnected { node_id, .. } if node_id == "b"));
    assert!(matches!(&evs[1], AppEvent::MessageSent { ok_count: 2, total: 3, .. }));
}

#[test]
fn direct_message_lookup() {
    let reg = reg_with_alice();
    assert!(matches!(lookup_sender("alice", true, &reg), SenderLookup::Connected));
    assert!(matches!(lookup_sender("alice", false, &reg), SenderLookup::Reconnect { address, .. } if address == "192.168.1.5"));
    assert!(matches!(lookup_sender("zed", false, &reg), SenderLookup::Unknown { .. }));
}
