use p2p_chat::api::{Command, Content, MessageInfo, MessageStatus, NoticeLevel, Notify, PeerInfo};
use p2p_chat::console::{connect_command, cursor_column, lan_line, local_line, setup_too_small, visible_start, ChatScreen, Key, SetupOutcome, SetupState, UiAction, MAX_MESSAGES};
use p2p_chat::event::{AppEvent, DisplayLine, LineKind, NodeCommand};
use p2p_chat::tui::{TuiScreen, HISTORY_PAGE};

fn type_line(s: &mut ChatScreen, text: &str) -> (Vec<UiAction>, bool) {
    for c in text.chars() {
        s.handle_key(Key::Char(c));
    }
    s.handle_key(Key::Enter)
}

fn last_text(s: &ChatScreen) -> String {
    s.messages.back().unwrap().text.clone()
}

#[test]
fn pane_keeps_at_most_500_lines() {
    let mut s = ChatScreen::new();
    for i in 0..510 {
        s.push(DisplayLine { kind: LineKind::System, text: format!("{}", i) });
    }
    assert_eq!(s.messages.len(), MAX_MESSAGES);
    assert_eq!(s.messages.front().unwrap().text, "10");
}

#[test]
fn console_send_and_chat_mode() {
    let mut s = ChatScreen::new();
    let (acts, stop) = type_line(&mut s, "send bob  hello   there");
    assert!(!stop);
    assert!(matches!(&acts[0], UiAction::Node(NodeCommand::SendMessage { to, content }) if to == "bob" && content == "hello there"));
    let (acts, _) = type_line(&mut s, "chat alice");
    assert_eq!(s.current_chat.as_deref(), Some("alice"));
    assert_eq!(last_text(&s), "Entering chat with 'alice'. Type to send, /exit to leave.");
    assert!(matches!(&acts[0], UiAction::Node(NodeCommand::Chat(Some(p))) if p == "alice"));
    let (acts, _) = type_line(&mut s, "how are you");
    assert!(matches!(&acts[0], UiAction::Node(NodeCommand::SendMessage { to, content }) if to == "alice" && content == "how are you"));
    let (_, _) = type_line(&mut s, "/exit");
    assert_eq!(s.current_chat, None);
    assert_eq!(last_text(&s), "Left chat with 'alice'");
    let (acts, stop) = type_line(&mut s, "quit");
    assert!(stop);
    assert!(matches!(acts[0], UiAction::Node(NodeCommand::Quit)));
}

#[test]
fn console_usage_and_unknown_commands() {
    let mut s = ChatScreen::new();
    type_line(&mut s, "connect");
    assert_eq!(last_text(&s), "Usage: connect <ip>  |  connect <ip:port>  |  connect <node_id>");
    type_line(&mut s, "frobnicate now");
    assert_eq!(last_text(&s), "Unknown command 'frobnicate'. Type 'help' for available commands.");
    type_line(&mut s, "chat");
    assert_eq!(last_text(&s), "Not in chat mode");
    let (acts, _) = type_line(&mut s, "connect 10.0.0.1");
    assert!(matches!(&acts[0], UiAction::Connect(t) if t == "10.0.0.1"));
    let (acts, _) = type_line(&mut s, "connect 192.168.1.6:8888 alice");
    assert_eq!(acts.len(), 1);
    assert!(matches!(&acts[0], UiAction::Connect(t) if t == "192.168.1.6:8888"));
    type_line(&mut s, "connect a b c");
    assert_eq!(last_text(&s), "Usage: connect <ip>  |  connect <ip:port>  |  connect <node_id>");
    let before = s.messages.len();
    type_line(&mut s, "help");
    assert_eq!(s.messages.len(), before + 18);
}

#[test]
fn console_history_and_scrolling_keys() {
    let mut s = ChatScreen::new();
    type_line(&mut s, "list");
    type_line(&mut s, "peers");
    type_line(&mut s, "peers");
    assert_eq!(s.history, vec!["list".to_string(), "peers".to_string()]);
    s.handle_key(Key::Char('x'));
    s.handle_key(Key::Up);
    assert_eq!(s.input, "peers");
    s.handle_key(Key::Up);
    assert_eq!(s.input, "list");
    s.handle_key(Key::Up);
    assert_eq!(s.input, "list");
    s.handle_key(Key::Down);
    assert_eq!(s.input, "peers");
    s.handle_key(Key::Down);
    assert_eq!(s.input, "");
    s.handle_key(Key::Up);
    s.handle_key(Key::PageUp);
    assert_eq!(s.scroll_offset, 11);
    s.handle_key(Key::PageDown);
    s.handle_key(Key::PageDown);
    assert_eq!(s.scroll_offset, 0);
    s.handle_key(Key::Up);
    s.handle_key(Key::Esc);
    assert_eq!(s.scroll_offset, 0);
    let (acts, stop) = s.handle_key(Key::CtrlC);
    assert!(stop && matches!(acts[0], UiAction::Node(NodeCommand::Quit)));
}

#[test]
fn console_event_lines() {
    let mut s = ChatScreen::new();
    s.handle_app_event(AppEvent::MessageReceived {
        from_id: "alice".into(), from_name: "Alice".into(), to: Some("bob".into()), content: "Hello!".into(), timestamp: 52325,
    });
    assert_eq!(last_text(&s), "[14:32:05] Alice (alice): Hello!");
    s.handle_app_event(AppEvent::MessageReceived {
        from_id: "alice".into(), from_name: "Alice".into(), to: None, content: "Hi!".into(), timestamp: 52325,
    });
    assert_eq!(last_text(&s), "[14:32:05] Alice (alice) \u{2192} all: Hi!");
    s.handle_app_event(AppEvent::MessageSent {
        to: None, content: "Hi!".into(), timestamp: 52325, ok_count: 2, total: 2, our_name: "You".into(), our_id: "bob".into(),
    });
    assert_eq!(last_text(&s), "[14:32:05] You (bob) \u{2192} all [2/2]: Hi!");
    s.handle_app_event(AppEvent::MessageSent {
        to: Some("alice".into()), content: "Hello!".into(), timestamp: 52330, ok_count: 1, total: 1, our_name: "Bob".into(), our_id: "bob".into(),
    });
    assert_eq!(last_text(&s), "[14:32:10] You (bob) \u{2192} alice: Hello!");
    s.handle_app_event(AppEvent::PeerConnected { node_id: "alice".into(), username: "Alice".into() });
    s.handle_app_event(AppEvent::PeerConnected { node_id: "alice".into(), username: "Alice".into() });
    assert_eq!(s.online_peers, vec!["alice".to_string()]);
    assert_eq!(last_text(&s), "[SYSTEM] alice (Alice) connected");
    s.handle_app_event(AppEvent::PeerDisconnected { node_id: "alice".into(), reason: "connection closed".into() });
    assert!(s.online_peers.is_empty());
    assert_eq!(last_text(&s), "[SYSTEM] alice disconnected: connection closed");
    assert!(s.handle_app_event(AppEvent::NodeShutdown));
}

#[test]
fn connect_target_kinds_and_visible_window() {
    assert!(matches!(connect_command("1.2.3.4".into(), true, false), NodeCommand::ConnectByIp { .. }));
    assert!(matches!(connect_command("1.2.3.4:9000".into(), false, true), NodeCommand::Connect { .. }));
    assert!(matches!(connect_command("alice".into(), false, false), NodeCommand::ConnectById { .. }));
    assert_eq!(visible_start(5, 10, 3), 0);
    assert_eq!(visible_start(30, 10, 0), 20);
    assert_eq!(visible_start(30, 10, 5), 15);
    assert_eq!(visible_start(30, 10, 99), 0);
}

#[test]
fn setup_dialog_flow() {
    let mut st = SetupState::new();
    assert!(matches!(st.handle_key(Key::Enter), SetupOutcome::Continue));
    assert_eq!(st.error.as_deref(), Some("Node ID cannot be empty"));
    for c in "al ice".chars() {
        st.handle_key(Key::Char(c));
    }
    assert_eq!(st.node_id, "alice");
    st.handle_key(Key::Enter);
    assert_eq!(st.focus, 1);
    assert!(matches!(st.handle_key(Key::Enter), SetupOutcome::Continue));
    assert_eq!(st.error.as_deref(), Some("Username cannot be empty"));
    for c in " Alice ".chars() {
        st.handle_key(Key::Char(c));
    }
    match st.handle_key(Key::Enter) {
        SetupOutcome::Done(id, name) => {
            assert_eq!(id, "alice");
            assert_eq!(name, "Alice");
        }
        _ => panic!("setup should be done"),
    }
    assert!(matches!(st.handle_key(Key::CtrlC), SetupOutcome::Cancelled));
}

fn tui_type(t: &mut TuiScreen, text: &str, now: u64) -> (Vec<Command>, bool) {
    for c in text.chars() {
        t.handle_key_at(Key::Char(c), now);
    }
    t.handle_key_at(Key::Enter, now)
}

fn tui_last(t: &TuiScreen) -> String {
    t.screen.messages.back().unwrap().text.clone()
}

#[test]
fn tui_send_numbers_messages() {
    let mut t = TuiScreen::new();
    let (cmds, _) = tui_type(&mut t, "send bob hi there", 3600);
    assert!(matches!(&cmds[0], Command::SendMessage { conv_id, msg_id, content: Content::Text(x) }
        if conv_id == "bob" && msg_id == "msg-1" && x == "hi there"));
    assert_eq!(tui_last(&t), "[01:00:00] \u{2192} bob: hi there");
    tui_type(&mut t, "chat bob", 0);
    let (cmds, _) = tui_type(&mut t, "again", 0);
    assert!(matches!(&cmds[0], Command::SendMessage { msg_id, .. } if msg_id == "msg-2"));
    assert_eq!(t.msg_seq, 2);
    let (cmds, _) = tui_type(&mut t, "/history", 0);
    assert!(matches!(&cmds[0], Command::GetHistory { conv_id, before: None, limit } if conv_id == "bob" && *limit == HISTORY_PAGE));
    let (cmds, _) = tui_type(&mut t, "/exit", 0);
    assert!(cmds.is_empty());
    assert_eq!(tui_last(&t), "Left chat with 'bob'");
    let id = t.next_msg_id();
    assert_eq!(id, "msg-3");
}

#[test]
fn tui_commands() {
    let mut t = TuiScreen::new();
    let (cmds, _) = tui_type(&mut t, "connect 10.0.0.2", 0);
    assert!(matches!(&cmds[0], Command::Connect { addr } if addr == "10.0.0.2"));
    let (cmds, _) = tui_type(&mut t, "connect 10.0.0.2:8888 bob", 0);
    assert!(matches!(&cmds[0], Command::Connect { addr } if addr == "10.0.0.2:8888"));
    let (cmds, _) = tui_type(&mut t, "disconnect bob", 0);
    assert!(matches!(&cmds[0], Command::Disconnect { peer_id } if peer_id == "bob"));
    tui_type(&mut t, "disconnect", 0);
    assert_eq!(tui_last(&t), "Usage: disconnect <node_id>");
    tui_type(&mut t, "history", 0);
    assert_eq!(tui_last(&t), "Usage: history <node_id>");
    let (cmds, _) = tui_type(&mut t, "peers", 0);
    assert!(matches!(cmds[0], Command::ListPeers));
    let before = t.screen.messages.len();
    tui_type(&mut t, "help", 0);
    assert_eq!(t.screen.messages.len(), before + 16);
    let (cmds, stop) = tui_type(&mut t, "/quit", 0);
    assert!(stop && matches!(cmds[0], Command::Shutdown));
    let (cmds, stop) = t.handle_key(Key::CtrlC);
    assert!(stop && matches!(cmds[0], Command::Shutdown));
}

fn info(msg_id: &str, text: &str, ts: u64, status: MessageStatus) -> MessageInfo {
    MessageInfo { msg_id: msg_id.into(), from: "alice".into(), content: Content::Text(text.into()), timestamp: ts, status }
}

#[test]
fn tui_notification_lines() {
    let mut t = TuiScreen::new();
    assert!(!t.handle_notify(Notify::MessageReceived { conv_id: "alice".into(), msg: info("m", "Hello!", 52325, MessageStatus::Sent) }));
    assert_eq!(tui_last(&t), "[14:32:05] alice (alice): Hello!");
    t.handle_notify(Notify::MessageAck { msg_id: "msg-1".into(), status: MessageStatus::Failed("Unknown peer 'x'".into()) });
    assert_eq!(tui_last(&t), "Send failed [msg-1]: Unknown peer 'x'");
    let n = t.screen.messages.len();
    t.handle_notify(Notify::MessageAck { msg_id: "msg-2".into(), status: MessageStatus::Sent });
    assert_eq!(t.screen.messages.len(), n);
    t.handle_notify(Notify::PeerOnline { peer_id: "bob".into(), peer_name: "Bob".into(), addr: "10.0.0.2:9000".into() });
    assert_eq!(tui_last(&t), "Bob (bob) connected from 10.0.0.2:9000");
    assert_eq!(t.screen.online_peers, vec!["bob".to_string()]);
    t.handle_notify(Notify::PeerOffline { peer_id: "bob".into() });
    assert_eq!(tui_last(&t), "bob disconnected");
    assert!(t.screen.online_peers.is_empty());
    t.handle_notify(Notify::PeerList { peers: vec![] });
    assert_eq!(tui_last(&t), "No connected peers");
    t.handle_notify(Notify::PeerList { peers: vec![PeerInfo { peer_id: "bob".into(), peer_name: "Bob".into(), addr: "1.2.3.4:9000".into() }] });
    assert_eq!(tui_last(&t), "  Bob (bob) - 1.2.3.4:9000");
    t.handle_notify(Notify::History { conv_id: "alice".into(), messages: vec![] });
    assert_eq!(tui_last(&t), "No history for 'alice'");
    t.handle_notify(Notify::History {
        conv_id: "alice".into(),
        messages: vec![info("m1", "a", 0, MessageStatus::Sent), info("m2", "b", 61, MessageStatus::Failed("x".into()))],
    });
    assert_eq!(tui_last(&t), "  [00:01:01] alice (m2): b [FAILED]");
    t.handle_notify(Notify::Notice { level: NoticeLevel::Error, content: "boom".into() });
    assert_eq!(tui_last(&t), "[ERROR] boom");
    t.handle_notify(Notify::Notice { level: NoticeLevel::Info, content: "fine".into() });
    assert_eq!(tui_last(&t), "fine");
}

#[test]
fn tui_banner_lines() {
    let mut t = TuiScreen::new();
    t.show_banner("alice", "Alice", 9000, "192.168.1.5");
    let texts: Vec<String> = t.screen.messages.iter().map(|l| l.text.clone()).collect();
    assert_eq!(texts.len(), 7);
    assert_eq!(texts[0], "\u{2500}".repeat(71));
    assert_eq!(texts[1], "Node: alice (Alice)");
    assert_eq!(texts[2], "Listening \u{2192} local: 127.0.0.1:9000   LAN: 192.168.1.5:9000");
    assert_eq!(texts[6], texts[0]);
}

#[test]
fn setup_dialog_texts() {
    assert_eq!(local_line(9000), "Local  127.0.0.1:9000   (same machine)");
    assert_eq!(lan_line("unknown", 9001), "LAN    <ip>:9001   (share with peers on your network)");
    assert_eq!(lan_line("192.168.1.5", 9001), "LAN    192.168.1.5:9001   \u{2190} share this address with peers");
    let mut st = SetupState::new();
    assert_eq!(st.hint(), ("Tab / \u{2193} / Enter \u{2192} next field   |   Ctrl-C to quit".to_string(), false));
    st.handle_key(Key::Enter);
    assert_eq!(st.hint(), ("Node ID cannot be empty".to_string(), true));
    st.handle_key(Key::Tab);
    assert_eq!(st.hint().1, false);
    assert_eq!(st.focus, 1);
}

#[test]
fn chat_title_and_prompt() {
    let mut s = ChatScreen::new();
    assert_eq!(s.title(), " P2P Chat (no peers online) ");
    assert_eq!(s.prompt(), "> ");
    s.handle_app_event(AppEvent::PeerConnected { node_id: "alice".into(), username: "A".into() });
    s.handle_app_event(AppEvent::PeerConnected { node_id: "bob".into(), username: "B".into() });
    s.handle_key(Key::Up);
    s.handle_key(Key::Up);
    s.handle_key(Key::Up);
    assert_eq!(s.title(), " P2P Chat | Online: alice, bob  \u{2191}3 ");
    for c in "chat alice".chars() {
        s.handle_key(Key::Char(c));
    }
    s.handle_key(Key::Enter);
    s.handle_key(Key::Char('h'));
    assert_eq!(s.prompt(), "[alice]> h");
}

#[test]
fn tui_knows_which_keys_send() {
    let mut t = TuiScreen::new();
    for c in "send bob hi".chars() {
        t.handle_key_at(Key::Char(c), 0);
    }
    assert!(t.would_send(Key::Enter));
    assert!(!t.would_send(Key::Up));
    t.screen.input = "send bob".to_string();
    assert!(!t.would_send(Key::Enter));
    t.screen.input = "/send bob hi".to_string();
    assert!(t.would_send(Key::Enter));
    t.screen.current_chat = Some("bob".to_string());
    t.screen.input = "hello".to_string();
    assert!(t.would_send(Key::Enter));
    t.screen.input = " /exit ".to_string();
    assert!(!t.would_send(Key::Enter));
    t.screen.input = "   ".to_string();
    assert!(!t.would_send(Key::Enter));
}

#[test]
fn setup_dialog_needs_ten_rows_and_thirty_two_columns() {
    assert!(!setup_too_small(10, 32));
    assert!(setup_too_small(9, 80));
    assert!(setup_too_small(40, 31));
}

#[test]
fn cursor_stays_inside_the_input_box() {
    assert_eq!(cursor_column(0, 20, 5), 6);
    assert_eq!(cursor_column(0, 20, 30), 18);
    assert_eq!(cursor_column(4, 1, 3), 4);
    assert_eq!(cursor_column(2, 80, 65540), 7);
}
