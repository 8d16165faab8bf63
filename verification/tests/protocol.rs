use p2p_chat::frame::encode_packet_frame;
use p2p_chat::message::P2PMessage;
use p2p_chat::net::{ConnTable, Packet, RecvBuffers, TokenPool, LISTENER_TOKEN};

#[test]
fn message_constructors_set_fields_and_time() {
    let h = P2PMessage::new_handshake("alice".into(), "Alice".into(), "1.2.3.4:9000".into());
    assert!(h.is_handshake() && !h.is_direct() && !h.is_system() && !h.is_keepalive() && !h.is_disconnect());
    assert!(matches!(&h, P2PMessage::Handshake { node_id, username, listen_addr, .. }
        if node_id == "alice" && username == "Alice" && listen_addr == "1.2.3.4:9000"));
    assert!(h.timestamp() > 1_577_836_800);
    let d = P2PMessage::new_direct("a".into(), None, "hi".into());
    assert!(d.is_direct());
    assert!(matches!(&d, P2PMessage::Direct { to: None, content, .. } if content == "hi"));
    assert!(P2PMessage::new_system("s".into()).is_system());
    assert!(P2PMessage::new_keepalive().is_keepalive());
    let x = P2PMessage::new_disconnect("bye".into());
    assert!(x.is_disconnect());
    assert!(matches!(&x, P2PMessage::Disconnect { reason, .. } if reason == "bye"));
}

#[test]
fn timestamp_of_each_variant() {
    let m = P2PMessage::System { content: "x".into(), timestamp: 42 };
    assert_eq!(m.timestamp(), 42);
    assert_eq!(P2PMessage::Keepalive { timestamp: 7 }.timestamp(), 7);
}

#[test]
fn tokens_start_at_one_and_are_reused_last_first() {
    let mut pool = TokenPool::new();
    assert!(pool.can_alloc_token());
    let a = pool.alloc_token();
    let b = pool.alloc_token();
    let c = pool.alloc_token();
    assert_eq!((a, b, c), (1, 2, 3));
    assert_ne!(a, LISTENER_TOKEN);
    assert!(pool.is_live(2));
    assert!(pool.release(1));
    assert!(pool.release(3));
    assert!(!pool.release(3));
    assert!(!pool.is_live(3));
    assert_eq!(pool.alloc_token(), 3);
    assert_eq!(pool.alloc_token(), 1);
    assert_eq!(pool.alloc_token(), 4);
}

#[test]
fn packet_variants_hold_their_fields() {
    let p = Packet::Chat { from: "a".into(), to: Some("b".into()), content: "c".into(), timestamp: 1 };
    assert!(matches!(p, Packet::Chat { timestamp: 1, .. }));
}

#[test]
fn connection_table_lifecycle() {
    let mut t = ConnTable::new();
    assert!(t.can_add());
    let a = t.accept();
    let b = t.connect(Some(vec![1, 2, 3]));
    assert_eq!((a, b), (1, 2));
    assert!(t.contains(a) && t.contains(b));
    assert!(!t.is_connecting(a));
    assert!(t.is_connecting(b));
    assert_eq!(t.establish(b), Some(vec![1, 2, 3]));
    assert!(!t.is_connecting(b));
    assert_eq!(t.establish(b), None);
    assert_eq!(t.establish(a), None);
    assert!(t.remove(a));
    assert!(!t.remove(a));
    assert!(!t.contains(a));
    let c = t.connect(None);
    assert_eq!(c, 1);
    assert_eq!(t.establish(c), None);
    assert!(!t.is_connecting(c));
}

#[test]
fn receive_buffer_cuts_packets_in_order() {
    let mut bufs = RecvBuffers::new();
    let mut stream = encode_packet_frame(b"first");
    stream.extend(encode_packet_frame(b"second"));
    bufs.append(7, &stream[..3]);
    assert_eq!(bufs.peek_frame(7), None);
    bufs.append(7, &stream[3..12]);
    let (body, n) = bufs.peek_frame(7).unwrap();
    assert_eq!((body.as_slice(), n), (&b"first"[..], 9));
    bufs.consume(7, n);
    assert_eq!(bufs.peek_frame(7), None);
    bufs.append(7, &stream[12..]);
    assert_eq!(bufs.peek_frame(7), Some((b"second".to_vec(), 10)));
    assert_eq!(bufs.peek_frame(8), None);
    bufs.remove(7);
    assert_eq!(bufs.peek_frame(7), None);
}
