//! Logic of the terminal chat interface over the application's command and
//! notification protocol: the command language typed by the user (which
//! becomes [`Command`]s) and how [`Notify`] messages become lines of the
//! message pane. Drawing and the terminal are left to the caller.

use vstd::prelude::*;
use crate::api::{Command, CommandV, Content, MessageInfo, MessageInfoV, MessageStatus, NoticeLevel, Notify, NotifyV, PeerInfo, StatusV};
use crate::clock::{format_time, time_text};
use crate::console::{ChatScreen, ChatView, Key, banner_with, empty_chat, enter_view, key_spec, push_line, slashed, sys_line, sys_lines, texts, without};
use crate::event::{DisplayLine, LineKind, LineV};
use crate::text::{cat, chars_of, decimal, decimal_string, join_from, join_spaced, split_words, str_is, string_from_chars, trim, trim_str, words};

verus! {

/// How many messages the `history` command asks for.
pub const HISTORY_PAGE: u32 = 32;

/// The texts of the help command, one per line.
pub open spec fn help_texts() -> Seq<Seq<char>> {
    seq![
        "Commands:"@,
        "  connect <addr>               - Connect (ip:port, ip, or node_id)"@,
        "  disconnect <node_id>         - Disconnect from a peer"@,
        "  chat <node_id>               - Enter chat mode with a peer"@,
        "  chat                         - Exit chat mode"@,
        "  send <node_id> <message>     - Send a direct message"@,
        "  history [node_id]            - Show chat history"@,
        "  list / peers                 - Show connected peers"@,
        "  quit                         - Exit the application"@,
        ""@,
        "In chat mode:"@,
        "  <message>     - Send message to current chat partner"@,
        "  /exit         - Leave chat mode"@,
        "  /<command>    - Run any command (e.g. /list, /history)"@,
        ""@,
        "Keys: \u{2191}\u{2193} = scroll/history | PageUp/Dn | Esc = bottom"@,
    ]
}

/// The id given to the `n`-th message sent from the interface.
pub open spec fn msg_id_text(n: u64) -> Seq<char> {
    "msg-"@ + decimal(n as nat)
}

/// Messages sent from the interface get distinct ids: the counter never
/// repeats a value, and different values give different ids.
pub proof fn lemma_msg_ids_distinct(a: u64, b: u64)
    requires
        a != b,
    ensures
        msg_id_text(a) != msg_id_text(b),
{
    let p = "msg-"@;
    if msg_id_text(a) == msg_id_text(b) {
        assert((p + decimal(a as nat)).skip(p.len() as int) =~= decimal(a as nat));
        assert((p + decimal(b as nat)).skip(p.len() as int) =~= decimal(b as nat));
        crate::text::lemma_decimal_injective(a as nat, b as nat);
    }
}

/// The pane line shown at once for a message sent to `to` at `now`.
pub open spec fn sent_line(now: u64, to: Seq<char>, body: Seq<char>) -> LineV {
    LineV { kind: LineKind::Outgoing, text: "["@ + time_text(now) + "] \u{2192} "@ + to + ": "@ + body }
}

/// What one step of the interface gives: the screen, the message counter,
/// the commands sent to the application, and whether the interface stops.
pub struct TuiStep {
    pub view: ChatView,
    pub seq: u64,
    pub cmds: Seq<CommandV>,
    pub stop: bool,
}

/// Commands as values.
pub open spec fn commands_view(s: Seq<Command>) -> Seq<CommandV> {
    s.map_values(|c: Command| c@)
}

/// A step that only changes the screen.
pub open spec fn show(view: ChatView, seq: u64) -> TuiStep {
    TuiStep { view, seq, cmds: seq![], stop: false }
}

/// A step that sends one command.
pub open spec fn order(view: ChatView, seq: u64, c: CommandV) -> TuiStep {
    TuiStep { view, seq, cmds: seq![c], stop: false }
}

/// Sending `body` to `to`: the next message id is taken, the line is shown
/// at once, and the message is handed to the application.
pub open spec fn send_step(v: ChatView, seq: u64, now: u64, to: Seq<char>, body: Seq<char>) -> TuiStep {
    let id = (seq + 1) as u64;
    order(
        push_line(v, sent_line(now, to, body)),
        id,
        CommandV::SendMessage { conv_id: to, msg_id: msg_id_text(id), text: body },
    )
}

/// What a command line does; `now` is the time shown for a sent message.
pub open spec fn tui_dispatch_spec(v: ChatView, seq: u64, now: u64, cmd: Seq<char>) -> TuiStep {
    let parts = words(cmd);
    if parts.len() == 0 {
        show(v, seq)
    } else if parts[0] == "quit"@ || parts[0] == "exit"@ {
        TuiStep { view: v, seq, cmds: seq![CommandV::Shutdown], stop: true }
    } else if parts[0] == "help"@ {
        show(sys_lines(v, help_texts()), seq)
    } else if parts[0] == "list"@ || parts[0] == "peers"@ {
        order(v, seq, CommandV::ListPeers)
    } else if parts[0] == "connect"@ {
        if parts.len() != 2 && parts.len() != 3 {
            show(sys_line(v, "Usage: connect <ip>  |  connect <ip:port>  |  connect <node_id>"@), seq)
        } else {
            order(v, seq, CommandV::Connect { addr: parts[1] })
        }
    } else if parts[0] == "disconnect"@ {
        if parts.len() != 2 {
            show(sys_line(v, "Usage: disconnect <node_id>"@), seq)
        } else {
            order(v, seq, CommandV::Disconnect { peer_id: parts[1] })
        }
    } else if parts[0] == "chat"@ {
        if parts.len() >= 2 {
            show(
                sys_line(
                    ChatView { current_chat: Some(parts[1]), ..v },
                    "Entering chat with '"@ + parts[1] + "'. Type to send, /exit to leave."@,
                ),
                seq,
            )
        } else if v.current_chat is Some {
            show(
                sys_line(ChatView { current_chat: None, ..v }, "Left chat with '"@ + v.current_chat->0 + "'"@),
                seq,
            )
        } else {
            show(sys_line(v, "Not in chat mode"@), seq)
        }
    } else if parts[0] == "send"@ {
        if parts.len() >= 3 {
            send_step(v, seq, now, parts[1], join_spaced(parts.subrange(2, parts.len() as int)))
        } else {
            show(sys_line(v, "Usage: send <node_id> <message>"@), seq)
        }
    } else if parts[0] == "history"@ {
        if parts.len() >= 2 {
            order(v, seq, CommandV::GetHistory { conv_id: parts[1], before: None, limit: HISTORY_PAGE })
        } else if v.current_chat is Some {
            order(v, seq, CommandV::GetHistory { conv_id: v.current_chat->0, before: None, limit: HISTORY_PAGE })
        } else {
            show(sys_line(v, "Usage: history <node_id>"@), seq)
        }
    } else {
        show(sys_line(v, "Unknown command '"@ + parts[0] + "'. Type 'help' for available commands."@), seq)
    }
}

/// A `send` command with a node id and words after it sends those words,
/// joined by single spaces, to that node under the next message id, and
/// shows the sent line at once; splitting the text gives back every word
/// after the id.
pub proof fn lemma_send_keeps_every_word_tui(v: ChatView, seq: u64, now: u64, cmd: Seq<char>)
    requires
        words(cmd).len() >= 3,
        words(cmd)[0] == "send"@,
    ensures
        ({
            let r = tui_dispatch_spec(v, seq, now, cmd);
            let text = join_spaced(words(cmd).subrange(2, words(cmd).len() as int));
            &&& r.seq == (seq + 1) as u64
            &&& !r.stop
            &&& r.view == push_line(v, sent_line(now, words(cmd)[1], text))
            &&& r.cmds == seq![
                (CommandV::SendMessage { conv_id: words(cmd)[1], msg_id: msg_id_text((seq + 1) as u64), text }),
            ]
            &&& words(text) == words(cmd).subrange(2, words(cmd).len() as int)
        }),
{
    reveal_strlit("quit");
    reveal_strlit("exit");
    reveal_strlit("help");
    reveal_strlit("list");
    reveal_strlit("peers");
    reveal_strlit("connect");
    reveal_strlit("disconnect");
    reveal_strlit("chat");
    reveal_strlit("send");
    let w0 = words(cmd)[0];
    assert(w0.len() == 4 && w0[0] == 's');
    assert(w0 != "quit"@ && w0 != "exit"@ && w0 != "help"@ && w0 != "list"@ && w0 != "peers"@);
    assert(w0 != "connect"@ && w0 != "disconnect"@ && w0 != "chat"@);
    crate::console::lemma_tail_words(cmd, 2);
}

/// A `history` command with an argument asks for a page of the history
/// with the peer it names, whatever the current chat partner; without an
/// argument it asks for the chat partner's history, and outside chat mode
/// it asks for nothing. The screen's state and message counter stay.
pub proof fn lemma_history_names_its_peer(v: ChatView, seq: u64, now: u64, cmd: Seq<char>)
    requires
        words(cmd).len() >= 1,
        words(cmd)[0] == "history"@,
    ensures
        tui_dispatch_spec(v, seq, now, cmd).seq == seq,
        !tui_dispatch_spec(v, seq, now, cmd).stop,
        words(cmd).len() >= 2 ==> tui_dispatch_spec(v, seq, now, cmd).view == v
            && tui_dispatch_spec(v, seq, now, cmd).cmds == seq![
            (CommandV::GetHistory { conv_id: words(cmd)[1], before: None, limit: HISTORY_PAGE }),
        ],
        words(cmd).len() == 1 && v.current_chat is Some ==> tui_dispatch_spec(v, seq, now, cmd).view == v
            && tui_dispatch_spec(v, seq, now, cmd).cmds == seq![
            (CommandV::GetHistory { conv_id: v.current_chat->0, before: None, limit: HISTORY_PAGE }),
        ],
        words(cmd).len() == 1 && v.current_chat is None ==> tui_dispatch_spec(v, seq, now, cmd).cmds.len()
            == 0,
{
    reveal_strlit("history");
    reveal_strlit("quit");
    reveal_strlit("exit");
    reveal_strlit("help");
    reveal_strlit("list");
    reveal_strlit("peers");
    reveal_strlit("connect");
    reveal_strlit("disconnect");
    reveal_strlit("chat");
    reveal_strlit("send");
    let w0 = words(cmd)[0];
    assert(w0.len() == 7 && w0[0] == 'h');
    assert(w0 != "quit"@ && w0 != "exit"@ && w0 != "help"@ && w0 != "list"@ && w0 != "peers"@);
    assert(w0 != "connect"@ && w0 != "disconnect"@ && w0 != "chat"@ && w0 != "send"@);
}

/// What an entered (trimmed, non-empty) line does: in chat mode a line is
/// sent to the partner unless it starts with `/`, which runs a command
/// (`/exit` or `/chat` leave chat mode); otherwise it is a command, with an
/// optional leading `/`.
pub open spec fn tui_route_spec(v: ChatView, seq: u64, now: u64, input: Seq<char>) -> TuiStep {
    match v.current_chat {
        Some(partner) => if slashed(input) {
            let cmd = trim(input.drop_first());
            if cmd == "exit"@ || cmd == "chat"@ {
                show(sys_line(ChatView { current_chat: None, ..v }, "Left chat with '"@ + partner + "'"@), seq)
            } else {
                tui_dispatch_spec(v, seq, now, cmd)
            }
        } else {
            send_step(v, seq, now, partner, input)
        },
        None => tui_dispatch_spec(
            v,
            seq,
            now,
            if slashed(input) {
                input.drop_first()
            } else {
                input
            },
        ),
    }
}

/// What a key press does: Enter runs the typed line, Control-C shuts down,
/// and the other keys edit the input or move in the pane as on the console.
pub open spec fn tui_key_spec(v: ChatView, seq: u64, now: u64, key: Key) -> TuiStep {
    match key {
        Key::Enter => if trim(v.input).len() == 0 {
            show(v, seq)
        } else {
            tui_route_spec(enter_view(v), seq, now, trim(v.input))
        },
        Key::CtrlC => TuiStep { view: v, seq, cmds: seq![CommandV::Shutdown], stop: true },
        _ => show(key_spec(v, key).0, seq),
    }
}

/// The command line `cmd` sends a message.
pub open spec fn dispatch_sends(cmd: Seq<char>) -> bool {
    words(cmd).len() >= 3 && words(cmd)[0] == "send"@
}

/// The entered line `input` sends a message.
pub open spec fn route_sends(v: ChatView, input: Seq<char>) -> bool {
    match v.current_chat {
        Some(_) => if slashed(input) {
            let cmd = trim(input.drop_first());
            !(cmd == "exit"@ || cmd == "chat"@) && dispatch_sends(cmd)
        } else {
            true
        },
        None => dispatch_sends(
            if slashed(input) {
                input.drop_first()
            } else {
                input
            },
        ),
    }
}

/// The key press `key` sends a message.
pub open spec fn key_sends(v: ChatView, key: Key) -> bool {
    key == Key::Enter && trim(v.input).len() > 0 && route_sends(enter_view(v), trim(v.input))
}

/// The line of a connected peer in the peer list.
pub open spec fn peer_line(p: (Seq<char>, Seq<char>, Seq<char>)) -> Seq<char> {
    "  "@ + p.1 + " ("@ + p.0 + ") - "@ + p.2
}

/// The line of a message in a history listing.
pub open spec fn history_line(m: MessageInfoV) -> Seq<char> {
    "  ["@ + time_text(m.timestamp) + "] "@ + m.from + " ("@ + m.msg_id + "): "@ + m.text + match m.status {
        StatusV::Sent => Seq::<char>::empty(),
        StatusV::Failed(_) => " [FAILED]"@,
    }
}

/// The screen after a notification from the application.
pub open spec fn tui_notify_spec(v: ChatView, n: NotifyV) -> ChatView {
    match n {
        NotifyV::MessageReceived { conv_id, msg } => push_line(
            v,
            LineV {
                kind: LineKind::Incoming,
                text: "["@ + time_text(msg.timestamp) + "] "@ + msg.from + " ("@ + conv_id + "): "@ + msg.text,
            },
        ),
        NotifyV::MessageAck { msg_id, status } => match status {
            StatusV::Sent => v,
            StatusV::Failed(err) => sys_line(v, "Send failed ["@ + msg_id + "]: "@ + err),
        },
        NotifyV::PeerOnline { peer_id, peer_name, addr } => sys_line(
            ChatView {
                online_peers: if v.online_peers.contains(peer_id) {
                    v.online_peers
                } else {
                    v.online_peers.push(peer_id)
                },
                ..v
            },
            peer_name + " ("@ + peer_id + ") connected from "@ + addr,
        ),
        NotifyV::PeerOffline { peer_id } => sys_line(
            ChatView { online_peers: without(v.online_peers, peer_id), ..v },
            peer_id + " disconnected"@,
        ),
        NotifyV::PeerList { peers } => if peers.len() == 0 {
            sys_line(v, "No connected peers"@)
        } else {
            sys_lines(
                sys_line(v, "Connected peers ("@ + decimal(peers.len()) + "):"@),
                peers.map_values(|p: (Seq<char>, Seq<char>, Seq<char>)| peer_line(p)),
            )
        },
        NotifyV::History { conv_id, messages } => if messages.len() == 0 {
            sys_line(v, "No history for '"@ + conv_id + "'"@)
        } else {
            sys_lines(
                sys_line(v, "History for '"@ + conv_id + "' ("@ + decimal(messages.len()) + " messages):"@),
                messages.map_values(|m: MessageInfoV| history_line(m)),
            )
        },
        NotifyV::Notice { level, content } => sys_line(
            v,
            match level {
                NoticeLevel::Info => content,
                NoticeLevel::Error => "[ERROR] "@ + content,
            },
        ),
    }
}

/// A key press at some time: the time of a sent message is read from the
/// clock when the key is handled.
pub open spec fn key_now(v: ChatView, seq: u64, key: Key, r: TuiStep) -> bool {
    exists|t: u64| r == #[trigger] tui_key_spec(v, seq, t, key)
}

/// The lines shown when the interface starts.
pub open spec fn banner_texts(node_id: Seq<char>, username: Seq<char>, port: u16, lan_ip: Seq<char>) -> Seq<Seq<char>> {
    banner_with(node_id, username, port, lan_ip, "Commands: help | connect | chat | send | history | list | quit"@)
}

/// State of the terminal interface: the chat screen and the counter that
/// numbers the messages it sends.
pub struct TuiScreen {
    pub screen: ChatScreen,
    /// Number of messages sent so far.
    pub msg_seq: u64,
}

impl TuiScreen {
    /// Invariant of the interface: that of its screen.
    pub open spec fn wf(&self) -> bool {
        self.screen.wf()
    }

    /// The step from `self` to `after` with the commands `cmds` and the
    /// stop flag `stop`.
    pub open spec fn step(&self, cmds: Seq<Command>, stop: bool) -> TuiStep {
        TuiStep { view: self.screen@, seq: self.msg_seq, cmds: commands_view(cmds), stop }
    }

    /// A fresh interface: empty screen, no message sent.
    pub fn new() -> (r: Self)
        ensures
            r.wf(),
            r.screen@ == empty_chat(),
            r.msg_seq == 0,
    {
        TuiScreen { screen: ChatScreen::new(), msg_seq: 0 }
    }

    /// The id of the next message sent.
    pub fn next_msg_id(&mut self) -> (r: String)
        requires
            old(self).msg_seq < u64::MAX,
        ensures
            final(self).msg_seq == old(self).msg_seq + 1,
            final(self).screen == old(self).screen,
            r@ == msg_id_text(final(self).msg_seq),
    {
        self.msg_seq = self.msg_seq + 1;
        let n = decimal_string(self.msg_seq);
        cat(String::from_str("msg-"), n.as_str())
    }

    /// Shows the help text.
    fn help(&mut self)
        requires
            old(self).wf(),
        ensures
            final(self).wf(),
            final(self).msg_seq == old(self).msg_seq,
            final(self).screen@ == sys_lines(old(self).screen@, help_texts()),
    {
        let lines: Vec<String> = vec![
            String::from_str("Commands:"),
            String::from_str("  connect <addr>               - Connect (ip:port, ip, or node_id)"),
            String::from_str("  disconnect <node_id>         - Disconnect from a peer"),
            String::from_str("  chat <node_id>               - Enter chat mode with a peer"),
            String::from_str("  chat                         - Exit chat mode"),
            String::from_str("  send <node_id> <message>     - Send a direct message"),
            String::from_str("  history [node_id]            - Show chat history"),
            String::from_str("  list / peers                 - Show connected peers"),
            String::from_str("  quit                         - Exit the application"),
            String::from_str(""),
            String::from_str("In chat mode:"),
            String::from_str("  <message>     - Send message to current chat partner"),
            String::from_str("  /exit         - Leave chat mode"),
            String::from_str("  /<command>    - Run any command (e.g. /list, /history)"),
            String::from_str(""),
            String::from_str("Keys: \u{2191}\u{2193} = scroll/history | PageUp/Dn | Esc = bottom"),
        ];
        assert(texts(lines@) =~= help_texts());
        self.screen.system_all(lines);
    }

    /// Shows the line of a sent message and hands it to the application.
    fn send(&mut self, to: String, body: String, now: u64) -> (r: Vec<Command>)
        requires
            old(self).wf(),
            old(self).msg_seq < u64::MAX,
        ensures
            final(self).wf(),
            final(self).step(r@, false) == send_step(old(self).screen@, old(self).msg_seq, now, to@, body@),
    {
        let ghost v = self.screen@;
        let msg_id = self.next_msg_id();
        let t = format_time(now);
        let mut text = cat(String::from_str("["), t.as_str());
        text = cat(text, "] \u{2192} ");
        text = cat(text, to.as_str());
        text = cat(text, ": ");
        text = cat(text, body.as_str());
        assert(text@ =~= sent_line(now, to@, body@).text);
        self.screen.push(DisplayLine { kind: LineKind::Outgoing, text });
        let mut out: Vec<Command> = Vec::new();
        let ghost (tv, bv, mv) = (to@, body@, msg_id@);
        out.push(Command::SendMessage { conv_id: to, msg_id, content: Content::Text(body) });
        assert(commands_view(out@) =~= seq![CommandV::SendMessage { conv_id: tv, msg_id: mv, text: bv }]);
        out
    }

    /// Runs one command line; `now` is the time shown for a sent message.
    pub fn dispatch_at(&mut self, cmd: &str, now: u64) -> (r: (Vec<Command>, bool))
        requires
            old(self).wf(),
            dispatch_sends(cmd@) ==> old(self).msg_seq < u64::MAX,
        ensures
            final(self).wf(),
            final(self).step(r.0@, r.1) == tui_dispatch_spec(old(self).screen@, old(self).msg_seq, now, cmd@),
    {
        let ghost v = self.screen@;
        let ghost seq0 = self.msg_seq;
        let parts = split_words(cmd);
        let ghost ws = words(cmd@);
        let mut out: Vec<Command> = Vec::new();
        assert(commands_view(out@) =~= seq![]);
        if parts.len() == 0 {
            return (out, false);
        }
        assert(parts@[0]@ == ws[0]);
        let p0 = parts[0].as_str();
        if str_is(p0, "quit") || str_is(p0, "exit") {
            out.push(Command::Shutdown);
            assert(commands_view(out@) =~= seq![CommandV::Shutdown]);
            return (out, true);
        }
        if str_is(p0, "help") {
            self.help();
            return (out, false);
        }
        if str_is(p0, "list") || str_is(p0, "peers") {
            out.push(Command::ListPeers);
            assert(commands_view(out@) =~= seq![CommandV::ListPeers]);
            return (out, false);
        }
        if str_is(p0, "connect") {
            if parts.len() != 2 && parts.len() != 3 {
                self.screen.system(String::from_str("Usage: connect <ip>  |  connect <ip:port>  |  connect <node_id>"));
            } else {
                assert(parts@[1]@ == ws[1]);
                out.push(Command::Connect { addr: parts[1].clone() });
                assert(commands_view(out@) =~= seq![CommandV::Connect { addr: ws[1] }]);
            }
            return (out, false);
        }
        if str_is(p0, "disconnect") {
            if parts.len() != 2 {
                self.screen.system(String::from_str("Usage: disconnect <node_id>"));
            } else {
                assert(parts@[1]@ == ws[1]);
                out.push(Command::Disconnect { peer_id: parts[1].clone() });
                assert(commands_view(out@) =~= seq![CommandV::Disconnect { peer_id: ws[1] }]);
            }
            return (out, false);
        }
        if str_is(p0, "chat") {
            if parts.len() >= 2 {
                assert(parts@[1]@ == ws[1]);
                self.screen.set_chat(Some(parts[1].clone()));
                let mut s = String::from_str("Entering chat with '");
                s = cat(s, parts[1].as_str());
                s = cat(s, "'. Type to send, /exit to leave.");
                self.screen.system(s);
            } else {
                let cur = match &self.screen.current_chat {
                    Some(p) => Some(p.clone()),
                    None => None,
                };
                match cur {
                    Some(p) => {
                        self.screen.set_chat(None);
                        let mut s = String::from_str("Left chat with '");
                        s = cat(s, p.as_str());
                        s = cat(s, "'");
                        self.screen.system(s);
                    },
                    None => {
                        self.screen.system(String::from_str("Not in chat mode"));
                    },
                }
            }
            return (out, false);
        }
        if str_is(p0, "send") {
            if parts.len() >= 3 {
                assert(parts@[1]@ == ws[1]);
                let body = join_from(&parts, 2);
                assert(Seq::new((parts@.len() - 2) as nat, |k: int| parts@[2 + k]@) =~= ws.subrange(2, ws.len() as int));
                let out = self.send(parts[1].clone(), body, now);
                return (out, false);
            } else {
                self.screen.system(String::from_str("Usage: send <node_id> <message>"));
                return (out, false);
            }
        }
        if str_is(p0, "history") {
            if parts.len() >= 2 {
                assert(parts@[1]@ == ws[1]);
                out.push(Command::GetHistory { conv_id: parts[1].clone(), before: None, limit: HISTORY_PAGE });
                assert(commands_view(out@) =~= seq![CommandV::GetHistory { conv_id: ws[1], before: None, limit: HISTORY_PAGE }]);
            } else {
                match &self.screen.current_chat {
                    Some(p) => {
                        out.push(Command::GetHistory { conv_id: p.clone(), before: None, limit: HISTORY_PAGE });
                        assert(commands_view(out@) =~= seq![CommandV::GetHistory { conv_id: v.current_chat->0, before: None, limit: HISTORY_PAGE }]);
                    },
                    None => {
                        self.screen.system(String::from_str("Usage: history <node_id>"));
                    },
                }
            }
            return (out, false);
        }
        let mut s = String::from_str("Unknown command '");
        s = cat(s, p0);
        s = cat(s, "'. Type 'help' for available commands.");
        self.screen.system(s);
        (out, false)
    }

    /// Handles one entered line (already trimmed and non-empty); `now` is
    /// the time shown for a sent message.
    pub fn route_input_at(&mut self, input: String, now: u64) -> (r: (Vec<Command>, bool))
        requires
            old(self).wf(),
            route_sends(old(self).screen@, input@) ==> old(self).msg_seq < u64::MAX,
        ensures
            final(self).wf(),
            final(self).step(r.0@, r.1) == tui_route_spec(old(self).screen@, old(self).msg_seq, now, input@),
    {
        let cs = chars_of(input.as_str());
        let slash = cs.len() > 0 && cs[0] == '/';
        let rest = if slash {
            string_from_chars(cs.as_slice(), 1, cs.len())
        } else {
            String::new()
        };
        assert(slash ==> rest@ =~= input@.drop_first());
        let cur = match &self.screen.current_chat {
            Some(p) => Some(p.clone()),
            None => None,
        };
        match cur {
            Some(partner) => {
                if slash {
                    let cmd = trim_str(rest.as_str());
                    if str_is(cmd.as_str(), "exit") || str_is(cmd.as_str(), "chat") {
                        let mut s = String::from_str("Left chat with '");
                        s = cat(s, partner.as_str());
                        s = cat(s, "'");
                        self.screen.set_chat(None);
                        self.screen.system(s);
                        let out: Vec<Command> = Vec::new();
                        assert(commands_view(out@) =~= seq![]);
                        (out, false)
                    } else {
                        self.dispatch_at(cmd.as_str(), now)
                    }
                } else {
                    let out = self.send(partner, input, now);
                    (out, false)
                }
            },
            None => {
                if slash {
                    self.dispatch_at(rest.as_str(), now)
                } else {
                    self.dispatch_at(input.as_str(), now)
                }
            },
        }
    }

    /// Whether pressing `key` would send a message (and so take the next
    /// message id).
    pub fn would_send(&self, key: Key) -> (r: bool)
        ensures
            r == key_sends(self.screen@, key),
    {
        match key {
            Key::Enter => {},
            _ => {
                return false;
            },
        }
        let input = trim_str(self.screen.input.as_str());
        let cs = chars_of(input.as_str());
        if cs.len() == 0 {
            return false;
        }
        let slash = cs[0] == '/';
        let rest = if slash {
            string_from_chars(cs.as_slice(), 1, cs.len())
        } else {
            String::new()
        };
        assert(slash ==> rest@ =~= input@.drop_first());
        let cmd = match &self.screen.current_chat {
            Some(_) => {
                if !slash {
                    return true;
                }
                let cmd = trim_str(rest.as_str());
                if str_is(cmd.as_str(), "exit") || str_is(cmd.as_str(), "chat") {
                    return false;
                }
                cmd
            },
            None => if slash {
                rest
            } else {
                input
            },
        };
        let parts = split_words(cmd.as_str());
        parts.len() >= 3 && str_is(parts[0].as_str(), "send")
    }

    /// Handles a key press; `now` is the time shown for a sent message.
    /// Returns the commands for the application and whether the interface
    /// stops.
    pub fn handle_key_at(&mut self, key: Key, now: u64) -> (r: (Vec<Command>, bool))
        requires
            old(self).wf(),
            key_sends(old(self).screen@, key) ==> old(self).msg_seq < u64::MAX,
            key == Key::Up && old(self).screen@.input.len() == 0 ==> old(self).screen.scroll_offset < usize::MAX,
        ensures
            final(self).wf(),
            final(self).step(r.0@, r.1) == tui_key_spec(old(self).screen@, old(self).msg_seq, now, key),
    {
        let mut out: Vec<Command> = Vec::new();
        assert(commands_view(out@) =~= seq![]);
        match key {
            Key::Enter => match self.screen.take_input() {
                Some(input) => self.route_input_at(input, now),
                None => (out, false),
            },
            Key::CtrlC => {
                out.push(Command::Shutdown);
                assert(commands_view(out@) =~= seq![CommandV::Shutdown]);
                (out, true)
            },
            _ => {
                let _ = self.screen.handle_key(key);
                (out, false)
            },
        }
    }

    /// Handles a key press, reading the clock for the time shown with a
    /// sent message.
    pub fn handle_key(&mut self, key: Key) -> (r: (Vec<Command>, bool))
        requires
            old(self).wf(),
            key_sends(old(self).screen@, key) ==> old(self).msg_seq < u64::MAX,
            key == Key::Up && old(self).screen@.input.len() == 0 ==> old(self).screen.scroll_offset < usize::MAX,
        ensures
            final(self).wf(),
            key_now(old(self).screen@, old(self).msg_seq, key, final(self).step(r.0@, r.1)),
    {
        let now = crate::clock::now();
        let r = self.handle_key_at(key, now);
        assert(self.step(r.0@, r.1) == tui_key_spec(old(self).screen@, old(self).msg_seq, now, key));
        r
    }

    /// Shows a notification from the application. The interface never stops
    /// on one: the result is always `false`.
    pub fn handle_notify(&mut self, event: Notify) -> (stop: bool)
        requires
            old(self).wf(),
        ensures
            final(self).wf(),
            final(self).msg_seq == old(self).msg_seq,
            final(self).screen@ == tui_notify_spec(old(self).screen@, event@),
            !stop,
    {
        let ghost v = self.screen@;
        let ghost ev = event@;
        match event {
            Notify::MessageReceived { conv_id, msg } => {
                let t = format_time(msg.timestamp);
                let mut s = cat(String::from_str("["), t.as_str());
                s = cat(s, "] ");
                s = cat(s, msg.from.as_str());
                s = cat(s, " (");
                s = cat(s, conv_id.as_str());
                s = cat(s, "): ");
                match &msg.content {
                    Content::Text(x) => {
                        s = cat(s, x.as_str());
                    },
                }
                self.screen.push(DisplayLine { kind: LineKind::Incoming, text: s });
            },
            Notify::MessageAck { msg_id, status } => {
                match status {
                    MessageStatus::Sent => {},
                    MessageStatus::Failed(err) => {
                        let mut s = cat(String::from_str("Send failed ["), msg_id.as_str());
                        s = cat(s, "]: ");
                        s = cat(s, err.as_str());
                        self.screen.system(s);
                    },
                }
            },
            Notify::PeerOnline { peer_id, peer_name, addr } => {
                let ghost v0 = self.screen@;
                if !self.screen.has_online(peer_id.as_str()) {
                    self.screen.online_peers.push(peer_id.clone());
                    assert(self.screen@ =~= (ChatView { online_peers: v0.online_peers.push(peer_id@), ..v0 }));
                }
                let mut s = cat(peer_name, " (");
                s = cat(s, peer_id.as_str());
                s = cat(s, ") connected from ");
                s = cat(s, addr.as_str());
                self.screen.system(s);
            },
            Notify::PeerOffline { peer_id } => {
                self.screen.remove_online(peer_id.as_str());
                let s = cat(peer_id, " disconnected");
                self.screen.system(s);
            },
            Notify::PeerList { peers } => {
                let ghost pv = peers@.map_values(|p: PeerInfo| crate::api::peer_info_view(p));
                if peers.len() == 0 {
                    self.screen.system(String::from_str("No connected peers"));
                } else {
                    let n = decimal_string(peers.len() as u64);
                    let mut s = cat(String::from_str("Connected peers ("), n.as_str());
                    s = cat(s, "):");
                    self.screen.system(s);
                    let mut lines: Vec<String> = Vec::new();
                    let mut i: usize = 0;
                    while i < peers.len()
                        invariant
                            i <= peers@.len(),
                            pv == peers@.map_values(|p: PeerInfo| crate::api::peer_info_view(p)),
                            texts(lines@) == pv.take(i as int).map_values(|p: (Seq<char>, Seq<char>, Seq<char>)| peer_line(p)),
                        decreases peers@.len() - i,
                    {
                        let p = &peers[i];
                        let mut l = cat(String::from_str("  "), p.peer_name.as_str());
                        l = cat(l, " (");
                        l = cat(l, p.peer_id.as_str());
                        l = cat(l, ") - ");
                        l = cat(l, p.addr.as_str());
                        let ghost before = lines@;
                        lines.push(l);
                        assert(pv.take(i + 1) =~= pv.take(i as int).push(pv[i as int]));
                        assert(texts(lines@) =~= texts(before).push(l@));
                        assert(texts(lines@) =~= pv.take(i + 1).map_values(|p: (Seq<char>, Seq<char>, Seq<char>)| peer_line(p)));
                        i = i + 1;
                    }
                    assert(pv.take(peers@.len() as int) =~= pv);
                    self.screen.system_all(lines);
                }
            },
            Notify::History { conv_id, messages } => {
                let ghost mvs = messages@.map_values(|m: MessageInfo| m@);
                if messages.len() == 0 {
                    let s = cat(cat(String::from_str("No history for '"), conv_id.as_str()), "'");
                    self.screen.system(s);
                } else {
                    let n = decimal_string(messages.len() as u64);
                    let mut s = cat(String::from_str("History for '"), conv_id.as_str());
                    s = cat(s, "' (");
                    s = cat(s, n.as_str());
                    s = cat(s, " messages):");
                    self.screen.system(s);
                    let mut lines: Vec<String> = Vec::new();
                    let mut i: usize = 0;
                    while i < messages.len()
                        invariant
                            i <= messages@.len(),
                            mvs == messages@.map_values(|m: MessageInfo| m@),
                            texts(lines@) == mvs.take(i as int).map_values(|m: MessageInfoV| history_line(m)),
                        decreases messages@.len() - i,
                    {
                        let m = &messages[i];
                        let t = format_time(m.timestamp);
                        let mut l = cat(String::from_str("  ["), t.as_str());
                        l = cat(l, "] ");
                        l = cat(l, m.from.as_str());
                        l = cat(l, " (");
                        l = cat(l, m.msg_id.as_str());
                        l = cat(l, "): ");
                        match &m.content {
                            Content::Text(x) => {
                                l = cat(l, x.as_str());
                            },
                        }
                        match &m.status {
                            MessageStatus::Sent => {},
                            MessageStatus::Failed(_) => {
                                l = cat(l, " [FAILED]");
                            },
                        }
                        assert(l@ =~= history_line(mvs[i as int]));
                        let ghost before = lines@;
                        lines.push(l);
                        assert(mvs.take(i + 1) =~= mvs.take(i as int).push(mvs[i as int]));
                        assert(texts(lines@) =~= texts(before).push(l@));
                        assert(texts(lines@) =~= mvs.take(i + 1).map_values(|m: MessageInfoV| history_line(m)));
                        i = i + 1;
                    }
                    assert(mvs.take(messages@.len() as int) =~= mvs);
                    self.screen.system_all(lines);
                }
            },
            Notify::Notice { level, content } => {
                let s = match level {
                    NoticeLevel::Info => content,
                    NoticeLevel::Error => cat(String::from_str("[ERROR] "), content.as_str()),
                };
                self.screen.system(s);
            },
        }
        false
    }

    /// Shows the start-up lines for node `node_id` (`username`) listening on
    /// `port`, reachable on the LAN at `lan_ip`.
    pub fn show_banner(&mut self, node_id: &str, username: &str, port: u16, lan_ip: &str)
        requires
            old(self).wf(),
        ensures
            final(self).wf(),
            final(self).msg_seq == old(self).msg_seq,
            final(self).screen@ == sys_lines(old(self).screen@, banner_texts(node_id@, username@, port, lan_ip@)),
    {
        self.screen.show_banner_with(
            node_id,
            username,
            port,
            lan_ip,
            String::from_str("Commands: help | connect | chat | send | history | list | quit"),
        );
    }
}

} // verus!
