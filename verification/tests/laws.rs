use p2p_chat::api::{Command, Content, MessageInfo, MessageStatus};
use p2p_chat::clock::format_time;
use p2p_chat::console::Key;
use p2p_chat::frame::{decode_stream_frame, encode_packet_frame, encode_stream_frame, Decoded};
use p2p_chat::history::HistoryManager;
use p2p_chat::net::RecvBuffers;
use p2p_chat::storage::{history_peer_id, Storage};
use p2p_chat::tui::TuiScreen;

#[test]
fn saved_history_file_is_found_again_under_its_peer() {
    let mut s = Storage::new("/d".into());
    s.set_active_user("me", [0u8; 32]);
    let path = s.history_path("bob.x");
    let name = path.rsplit('/').next().unwrap().to_string();
    assert_eq!(name, "bob_x.bin");
    assert_eq!(history_peer_id(&name), Some("bob_x".to_string()));
}

#[test]
fn format_time_of_largest_timestamp() {
    assert_eq!(format_time(u64::MAX), "07:00:15");
}

#[test]
fn every_sent_message_gets_a_new_id() {
    let mut t = TuiScreen::new();
    let mut seen: Vec<String> = Vec::new();
    for c in "chat bob".chars() {
        t.handle_key_at(Key::Char(c), 0);
    }
    t.handle_key_at(Key::Enter, 0);
    for i in 0..12 {
        for c in format!("m{}", i).chars() {
            t.handle_key_at(Key::Char(c), 0);
        }
        let (cmds, _) = t.handle_key_at(Key::Enter, 0);
        match &cmds[0] {
            Command::SendMessage { msg_id, .. } => {
                assert!(!seen.contains(msg_id));
                seen.push(msg_id.clone());
            }
            _ => panic!("expected a message"),
        }
    }
    assert_eq!(seen[9], "msg-10");
}

#[test]
fn two_frames_in_one_read_come_out_in_order() {
    let mut bufs = RecvBuffers::new();
    let mut bytes = encode_packet_frame(b"a");
    bytes.extend(encode_packet_frame(b"bc"));
    bytes.extend_from_slice(&[5, 0]);
    bufs.append(1, &bytes);
    let (b1, n1) = bufs.peek_frame(1).unwrap();
    bufs.consume(1, n1);
    let (b2, n2) = bufs.peek_frame(1).unwrap();
    bufs.consume(1, n2);
    assert_eq!((b1, b2), (b"a".to_vec(), b"bc".to_vec()));
    assert_eq!(bufs.peek_frame(1), None);
}

#[test]
fn stream_frames_read_back_whole() {
    for body in [vec![], vec![0u8], vec![1u8; 300], vec![255u8; 70000]] {
        let f = encode_stream_frame(&body).unwrap();
        assert_eq!(decode_stream_frame(&f), Ok(Decoded::Frame { body: body.clone(), consumed: body.len() + 4 }));
    }
}

#[test]
fn history_read_back_after_add_respects_limit() {
    let mut h = HistoryManager::new(vec![]);
    for i in 0..3u64 {
        h.add_message(
            "p",
            MessageInfo { msg_id: format!("{}", i), from: "p".into(), content: Content::Text("x".into()), timestamp: i, status: MessageStatus::Sent },
        );
    }
    let got = h.get_history("p", None, 2);
    assert_eq!(got.iter().map(|m| m.msg_id.clone()).collect::<Vec<_>>(), vec!["1", "2"]);
}
