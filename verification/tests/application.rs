use p2p_chat::api::{Command, Content, MessageInfo, MessageStatus, NoticeLevel, Notify, PeerInfo};
use p2p_chat::app::{App, Effect, Node, OFFLINE_TOKEN};
use p2p_chat::net::Packet;

fn app() -> App {
    App::new("me".into(), "Me".into(), "10.0.0.1:9000".into(), vec![], vec![])
}

fn connect(a: &mut App, id: &str, token: usize) {
    a.handle_packet(token, Packet::ConnectRequest { node_id: id.into(), name: id.to_uppercase(), addr: format!("{}:9000", id) });
}

#[test]
fn connect_request_is_answered_and_announced() {
    let mut a = app();
    let fx = a.handle_packet(3, Packet::ConnectRequest { node_id: "bob".into(), name: "Bob".into(), addr: "10.0.0.2:9000".into() });
    assert_eq!(fx.len(), 2);
    assert!(matches!(&fx[0], Effect::Send { token: 3, packet: Packet::ConnectResponse { node_id, name, addr } }
        if node_id == "me" && name == "Me" && addr == "10.0.0.1:9000"));
    assert!(matches!(&fx[1], Effect::Notify(Notify::PeerOnline { peer_id, peer_name, addr })
        if peer_id == "bob" && peer_name == "Bob" && addr == "10.0.0.2:9000"));
    let fx = a.handle_packet(4, Packet::ConnectResponse { node_id: "carol".into(), name: "Carol".into(), addr: "10.0.0.3:9001".into() });
    assert_eq!(fx.len(), 1);
    assert!(matches!(&fx[0], Effect::Notify(Notify::PeerOnline { .. })));
}

#[test]
fn incoming_chat_is_recorded_with_generated_id() {
    let mut a = app();
    connect(&mut a, "bob", 3);
    let fx = a.handle_packet(3, Packet::Chat { from: "bob".into(), to: Some("me".into()), content: "hi".into(), timestamp: 77 });
    assert_eq!(fx.len(), 2);
    assert!(matches!(&fx[0], Effect::Notify(Notify::MessageReceived { conv_id, msg })
        if conv_id == "bob" && msg.msg_id == "bob-77" && msg.from == "bob"));
    assert!(matches!(&fx[1], Effect::SaveHistory { peer_id } if peer_id == "bob"));
    let saved = a.history().persist("bob").unwrap();
    assert_eq!(saved.len(), 1);
    assert_eq!(saved[0].msg_id, "bob-77");
    let fx = a.handle_packet(3, Packet::Chat { from: "stranger".into(), to: None, content: "x".into(), timestamp: 1 });
    assert!(fx.is_empty());
}

#[test]
fn disconnect_packet_closes_and_drops_peer() {
    let mut a = app();
    connect(&mut a, "bob", 3);
    connect(&mut a, "carol", 4);
    let fx = a.handle_packet(3, Packet::Disconnect { reason: "bye".into() });
    assert!(matches!(fx[0], Effect::Close { token: 3 }));
    assert!(matches!(&fx[1], Effect::Notify(Notify::PeerOffline { peer_id }) if peer_id == "bob"));
    let (fx, _) = a.handle_command(Command::ListPeers, None);
    assert!(matches!(&fx[0], Effect::Notify(Notify::PeerList { peers }) if peers.len() == 1 && peers[0].peer_id == "carol"));
    assert!(a.handle_packet(9, Packet::Disconnect { reason: "?".into() }).is_empty());
}

#[test]
fn system_and_keepalive_packets() {
    let mut a = app();
    let fx = a.handle_packet(1, Packet::System { content: "note".into() });
    assert!(matches!(&fx[0], Effect::Notify(Notify::Notice { level: NoticeLevel::Info, content }) if content == "note"));
    assert!(a.handle_packet(1, Packet::Keepalive { timestamp: 0 }).is_empty());
}

#[test]
fn connect_command_three_ways() {
    let mut a = app();
    let (fx, stop) = a.handle_command(Command::Connect { addr: "10.0.0.9:7000".into() }, Some("10.0.0.9:7000".into()));
    assert!(!stop);
    assert!(matches!(&fx[0], Effect::Connect { addr, required: true, hello: Packet::ConnectRequest { node_id, .. } }
        if addr == "10.0.0.9:7000" && node_id == "me"));
    assert!(matches!(&fx[1], Effect::Notify(Notify::Notice { content, .. }) if content == "Connecting to 10.0.0.9:7000..."));
    connect(&mut a, "bob", 3);
    let (fx, _) = a.handle_command(Command::Connect { addr: "bob".into() }, None);
    assert!(matches!(&fx[0], Effect::Connect { addr, required: true, .. } if addr == "bob:9000"));
    let (fx, _) = a.handle_command(Command::Connect { addr: "192.168.1.5".into() }, None);
    assert_eq!(fx.len(), 6);
    let addrs: Vec<String> = fx[..5].iter().map(|e| match e {
        Effect::Connect { addr, required: false, .. } => addr.clone(),
        other => panic!("{:?}", other),
    }).collect();
    assert_eq!(addrs, vec!["192.168.1.5:9000", "192.168.1.5:9001", "192.168.1.5:9002", "192.168.1.5:9003", "192.168.1.5:9004"]);
    assert!(matches!(&fx[5], Effect::Notify(Notify::Notice { content, .. })
        if content == "Connecting to 192.168.1.5 (trying ports [9000, 9001, 9002, 9003, 9004])..."));
}

#[test]
fn disconnect_command_known_and_unknown() {
    let mut a = app();
    connect(&mut a, "bob", 3);
    let (fx, _) = a.handle_command(Command::Disconnect { peer_id: "bob".into() }, None);
    assert!(matches!(fx[0], Effect::Close { token: 3 }));
    assert!(matches!(&fx[1], Effect::Notify(Notify::PeerOffline { peer_id }) if peer_id == "bob"));
    let (fx, _) = a.handle_command(Command::Disconnect { peer_id: "bob".into() }, None);
    assert!(matches!(&fx[0], Effect::Notify(Notify::Notice { level: NoticeLevel::Error, content }) if content == "Unknown peer 'bob'"));
}

#[test]
fn send_message_and_acknowledgement() {
    let mut a = app();
    connect(&mut a, "bob", 3);
    let (fx, _) = a.handle_command(
        Command::SendMessage { conv_id: "bob".into(), msg_id: "msg-1".into(), content: Content::Text("yo".into()) },
        None,
    );
    let (token, conv, id, record) = match fx.into_iter().next().unwrap() {
        Effect::SendChat { token, packet: Packet::Chat { from, to, content, .. }, conv_id, msg_id, record } => {
            assert_eq!(from, "me");
            assert_eq!(to.as_deref(), Some("bob"));
            assert_eq!(content, "yo");
            (token, conv_id, msg_id, record)
        }
        other => panic!("{:?}", other),
    };
    assert_eq!(token, 3);
    let fx = a.chat_sent(conv, id, record, None);
    assert!(matches!(&fx[0], Effect::Notify(Notify::MessageAck { msg_id, status: MessageStatus::Sent }) if msg_id == "msg-1"));
    let (fx, _) = a.handle_command(Command::GetHistory { conv_id: "bob".into(), before: None, limit: 10 }, None);
    assert!(matches!(&fx[0], Effect::Notify(Notify::History { messages, .. }) if messages.len() == 1 && messages[0].msg_id == "msg-1"));
    let (fx, _) = a.handle_command(
        Command::SendMessage { conv_id: "zed".into(), msg_id: "msg-2".into(), content: Content::Text("?".into()) },
        None,
    );
    assert!(matches!(&fx[0], Effect::Notify(Notify::MessageAck { status: MessageStatus::Failed(e), .. }) if e == "Unknown peer 'zed'"));
}

#[test]
fn failed_send_is_reported_and_not_recorded() {
    let mut a = app();
    let rec = MessageInfo { msg_id: "m".into(), from: "me".into(), content: Content::Text("t".into()), timestamp: 1, status: MessageStatus::Sent };
    let fx = a.chat_sent("bob".into(), "m".into(), rec, Some("broken pipe".into()));
    assert!(matches!(&fx[0], Effect::Notify(Notify::MessageAck { status: MessageStatus::Failed(e), .. }) if e == "broken pipe"));
    assert!(a.history().persist("bob").is_none());
}

#[test]
fn shutdown_stops() {
    let mut a = app();
    let (fx, stop) = a.handle_command(Command::Shutdown, None);
    assert!(stop && fx.is_empty());
}

#[test]
fn peer_nodes_online_and_offline() {
    let mut n = Node::new_offline("bob".into(), "Bob".into(), "1.2.3.4:9000".into());
    assert_eq!(n.token, OFFLINE_TOKEN);
    assert_eq!(n.close(), None);
    n.set_online(5, "Bobby".into(), "1.2.3.4:9001".into());
    assert!(n.online);
    assert_eq!(n.close(), Some(5));
    n.set_offline();
    assert!(!n.online && n.token == OFFLINE_TOKEN);
    let (pkt, rec) = Node::new("bob".into(), "Bob".into(), "x".into(), 2).send_chat("me", "id1", "hello", 9);
    assert!(matches!(pkt, Packet::Chat { to: Some(ref t), .. } if t == "bob"));
    assert_eq!(rec.msg_id, "id1");
}

#[test]
fn saved_peers_start_offline() {
    let saved = vec![
        PeerInfo { peer_id: "bob".into(), peer_name: "Bob".into(), addr: "10.0.0.2:9000".into() },
        PeerInfo { peer_id: "bob".into(), peer_name: "Bobby".into(), addr: "10.0.0.2:9001".into() },
    ];
    let mut a = App::new("me".into(), "Me".into(), "10.0.0.1:9000".into(), vec![], saved);
    let (fx, _) = a.handle_command(Command::ListPeers, None);
    assert!(matches!(&fx[0], Effect::Notify(Notify::PeerList { peers })
        if peers.len() == 1 && peers[0].peer_name == "Bobby" && peers[0].addr == "10.0.0.2:9001"));
    let (fx, _) = a.handle_command(Command::Disconnect { peer_id: "bob".into() }, None);
    assert_eq!(fx.len(), 1);
    assert!(matches!(&fx[0], Effect::Notify(Notify::PeerOffline { peer_id }) if peer_id == "bob"));
}
