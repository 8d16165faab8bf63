//! Console logic of the chat screen: the setup dialog, key handling, the
//! command language, and how node events become lines of the message pane.
//! Drawing is left to the caller; this module decides what is shown.

use vstd::prelude::*;
use std::collections::VecDeque;
use crate::clock::{format_time, time_text};
use crate::event::{AppEvent, CmdV, DisplayLine, EventV, LineKind, LineV, NodeCommand, opt_text};
use crate::text::{cat, chars_of, decimal, decimal_string, join_from, join_spaced, push_char, split_words, str_is, string_from_chars, trim, trim_str, words};

verus! {

/// Most lines kept in the message pane; the oldest is dropped first.
pub const MAX_MESSAGES: usize = 500;

/// A key press, as far as the console distinguishes keys.
#[derive(Debug, Clone, Copy, PartialEq, Eq)]
pub enum Key {
    Enter,
    /// Control-C.
    CtrlC,
    /// A character (with any modifiers but Control-C).
    Char(char),
    Backspace,
    Up,
    Down,
    PageUp,
    PageDown,
    Esc,
    Tab,
    BackTab,
    Other,
}

/// What the console asks to be done after a key press.
#[derive(Debug)]
pub enum UiAction {
    /// Send this command to the node.
    Node(NodeCommand),
    /// Connect to this target: an IP, an `ip:port`, or a node id; see
    /// [`connect_command`] for how it becomes a node command.
    Connect(String),
}

/// [`UiAction`] as a value.
pub enum ActV {
    Node(CmdV),
    Connect(Seq<char>),
}

impl View for UiAction {
    type V = ActV;

    open spec fn view(&self) -> ActV {
        match self {
            UiAction::Node(c) => ActV::Node(c@),
            UiAction::Connect(t) => ActV::Connect(t@),
        }
    }
}

/// A list of actions as values.
pub open spec fn acts_view(a: Seq<UiAction>) -> Seq<ActV> {
    a.map_values(|x: UiAction| x@)
}

/// The node command for a `connect <target>` request: by IP when the
/// target is an IP address, by address when it is a socket address,
/// otherwise by node id. `is_ip` and `is_socket_addr` are what parsing the
/// target as an IP address and as a socket address gave.
pub open spec fn connect_command_spec(target: Seq<char>, is_ip: bool, is_socket_addr: bool) -> CmdV {
    if is_ip {
        CmdV::ConnectByIp { ip: target }
    } else if is_socket_addr {
        CmdV::Connect { addr: target }
    } else {
        CmdV::ConnectById { node_id: target }
    }
}

/// Chooses the node command for a `connect <target>` request.
pub fn connect_command(target: String, is_ip: bool, is_socket_addr: bool) -> (r: NodeCommand)
    ensures
        r@ == connect_command_spec(target@, is_ip, is_socket_addr),
{
    if is_ip {
        NodeCommand::ConnectByIp { ip: target }
    } else if is_socket_addr {
        NodeCommand::Connect { addr: target }
    } else {
        NodeCommand::ConnectById { node_id: target }
    }
}

/// State of the chat screen.
pub struct ChatScreen {
    /// Lines of the message pane, oldest first.
    pub messages: VecDeque<DisplayLine>,
    /// The line being typed.
    pub input: String,
    /// `Some(node_id)` while in chat mode.
    pub current_chat: Option<String>,
    /// Node ids of connected peers (shown in the title).
    pub online_peers: Vec<String>,
    /// Distance from the bottom of the pane; 0 follows the latest line.
    pub scroll_offset: usize,
    /// Lines entered before, oldest first.
    pub history: Vec<String>,
    /// Position in `history` while browsing it.
    pub history_idx: Option<usize>,
}

/// [`ChatScreen`] as a value.
#[verifier::ext_equal]
pub struct ChatView {
    pub messages: Seq<LineV>,
    pub input: Seq<char>,
    pub current_chat: Option<Seq<char>>,
    pub online_peers: Seq<Seq<char>>,
    pub scroll_offset: usize,
    pub history: Seq<Seq<char>>,
    pub history_idx: Option<usize>,
}

/// Texts seen as character sequences.
pub open spec fn texts(s: Seq<String>) -> Seq<Seq<char>> {
    s.map_values(|t: String| t@)
}

impl View for ChatScreen {
    type V = ChatView;

    open spec fn view(&self) -> ChatView {
        ChatView {
            messages: self.messages@.map_values(|l: DisplayLine| l@),
            input: self.input@,
            current_chat: opt_text(self.current_chat),
            online_peers: texts(self.online_peers@),
            scroll_offset: self.scroll_offset,
            history: texts(self.history@),
            history_idx: self.history_idx,
        }
    }
}

/// The pane holds at most [`MAX_MESSAGES`] lines, and a history position
/// points into the history.
pub open spec fn view_wf(v: ChatView) -> bool {
    &&& v.messages.len() <= MAX_MESSAGES
    &&& v.history_idx matches Some(i) ==> i < v.history.len()
}

/// The screen at start: nothing shown, typed or remembered.
pub open spec fn empty_chat() -> ChatView {
    ChatView {
        messages: seq![],
        input: seq![],
        current_chat: None,
        online_peers: seq![],
        scroll_offset: 0,
        history: seq![],
        history_idx: None,
    }
}

/// `s` without the occurrences of `x`.
pub open spec fn without(s: Seq<Seq<char>>, x: Seq<char>) -> Seq<Seq<char>> {
    s.filter(|p: Seq<char>| p != x)
}

/// `v` with `l` added to the pane (dropping the oldest line when full).
pub open spec fn push_line(v: ChatView, l: LineV) -> ChatView {
    ChatView {
        messages: (if v.messages.len() >= MAX_MESSAGES {
            v.messages.drop_first()
        } else {
            v.messages
        }).push(l),
        ..v
    }
}

/// `v` with a system line of text `t` added.
pub open spec fn sys_line(v: ChatView, t: Seq<char>) -> ChatView {
    push_line(v, LineV { kind: LineKind::System, text: t })
}

/// `v` with a system line for each text of `ts`, in order.
pub open spec fn sys_lines(v: ChatView, ts: Seq<Seq<char>>) -> ChatView
    decreases ts.len(),
{
    if ts.len() == 0 {
        v
    } else {
        sys_line(sys_lines(v, ts.drop_last()), ts.last())
    }
}

/// The lines shown when the chat screen starts: who this node is, where it
/// listens, and the reminder `commands` of the commands, between two rules.
pub open spec fn banner_with(
    node_id: Seq<char>,
    username: Seq<char>,
    port: u16,
    lan_ip: Seq<char>,
    commands: Seq<char>,
) -> Seq<Seq<char>> {
    let rule = Seq::new(71, |i: int| '\u{2500}');
    let p = decimal(port as nat);
    seq![
        rule,
        "Node: "@ + node_id + " ("@ + username + ")"@,
        "Listening \u{2192} local: 127.0.0.1:"@ + p + "   LAN: "@ + lan_ip + ":"@ + p,
        "Share the LAN address with peers so they can connect to you."@,
        commands,
        "Keys: \u{2191}\u{2193} scroll/history | PageUp/Dn | Esc=bottom | Ctrl-C quit"@,
        rule,
    ]
}

/// The start-up lines of the console.
pub open spec fn console_banner_texts(node_id: Seq<char>, username: Seq<char>, port: u16, lan_ip: Seq<char>) -> Seq<Seq<char>> {
    banner_with(
        node_id,
        username,
        port,
        lan_ip,
        "Commands: help | connect | chat | list | peers | send | broadcast | quit"@,
    )
}

/// The texts `ws` joined by `", "` (`[..].join(", ")`).
pub open spec fn join_comma(ws: Seq<Seq<char>>) -> Seq<char>
    decreases ws.len(),
{
    if ws.len() == 0 {
        seq![]
    } else if ws.len() == 1 {
        ws[0]
    } else {
        join_comma(ws.drop_last()) + seq![',', ' '] + ws.last()
    }
}

/// The title of the message pane: the online peers, and how far the pane
/// is scrolled up when it is.
pub open spec fn title_text(v: ChatView) -> Seq<char> {
    (if v.online_peers.len() == 0 {
        " P2P Chat (no peers online) "@
    } else {
        " P2P Chat | Online: "@ + join_comma(v.online_peers) + " "@
    }) + if v.scroll_offset > 0 {
        " \u{2191}"@ + decimal(v.scroll_offset as nat) + " "@
    } else {
        Seq::<char>::empty()
    }
}

/// The input line as shown: the chat partner in brackets in chat mode.
pub open spec fn prompt_text(v: ChatView) -> Seq<char> {
    match v.current_chat {
        Some(p) => "["@ + p + "]> "@ + v.input,
        None => "> "@ + v.input,
    }
}

/// `v` with the help text added.
pub open spec fn help_view(v: ChatView) -> ChatView {
    sys_line(sys_line(sys_line(sys_line(sys_line(sys_line(sys_line(sys_line(sys_line(sys_line(sys_line(sys_line(sys_line(sys_line(sys_line(sys_line(sys_line(sys_line(v, "Commands:"@), "  connect <ip>       - Connect by IP (probes ports 9000-9004 concurrently)"@), "  connect <ip:port>  - Connect to a peer at an explicit address"@), "  connect <node_id>  - Reconnect to a known peer (registry lookup)"@), "  chat <node_id>               - Enter focused chat mode with a peer"@), "  chat                         - Exit chat mode"@), "  list                         - Show currently connected peers"@), "  peers                        - Show all known peers (with online status)"@), "  send <node_id> <message>     - Send a direct message"@), "  broadcast <message>          - Broadcast to all connected peers"@), "  quit                         - Exit the application"@), ""@), "In chat mode:"@), "  <message>     - Send message to current chat partner"@), "  /exit         - Leave chat mode"@), "  /<command>    - Run any command (e.g. /list, /peers)"@), ""@), "Keys: ↑↓ = scroll (empty input) or history | PageUp/Dn | Esc = bottom"@)
}

/// The pane line for a received message.
pub open spec fn received_text(
    from_id: Seq<char>,
    from_name: Seq<char>,
    to: Option<Seq<char>>,
    content: Seq<char>,
    timestamp: u64,
) -> Seq<char> {
    let head = "["@ + time_text(timestamp) + "] "@ + from_name + " ("@ + from_id;
    match to {
        Some(_) => head + "): "@ + content,
        None => head + ") \u{2192} all: "@ + content,
    }
}

/// The pane line echoing a sent message: the sender is shown as `You`,
/// with this node's id.
pub open spec fn sent_text(
    to: Option<Seq<char>>,
    content: Seq<char>,
    timestamp: u64,
    ok_count: usize,
    total: usize,
    our_id: Seq<char>,
) -> Seq<char> {
    let head = "["@ + time_text(timestamp) + "] You ("@ + our_id;
    match to {
        Some(dest) => head + ") \u{2192} "@ + dest + ": "@ + content,
        None => head + ") \u{2192} all ["@ + decimal(ok_count as nat) + "/"@ + decimal(total as nat)
            + "]: "@ + content,
    }
}

/// The screen after a node event, and whether the console should stop
/// (after the node shut down).
pub open spec fn on_event(v: ChatView, e: EventV) -> (ChatView, bool) {
    match e {
        EventV::MessageReceived { from_id, from_name, to, content, timestamp } => (
            push_line(
                v,
                LineV {
                    kind: LineKind::Incoming,
                    text: received_text(from_id, from_name, to, content, timestamp),
                },
            ),
            false,
        ),
        EventV::MessageSent { to, content, timestamp, ok_count, total, our_name, our_id } => (
            push_line(
                v,
                LineV {
                    kind: LineKind::Outgoing,
                    text: sent_text(to, content, timestamp, ok_count, total, our_id),
                },
            ),
            false,
        ),
        EventV::PeerConnected { node_id, username } => (
            sys_line(
                ChatView {
                    online_peers: if v.online_peers.contains(node_id) {
                        v.online_peers
                    } else {
                        v.online_peers.push(node_id)
                    },
                    ..v
                },
                "[SYSTEM] "@ + node_id + " ("@ + username + ") connected"@,
            ),
            false,
        ),
        EventV::PeerDisconnected { node_id, reason } => (
            sys_line(
                ChatView { online_peers: without(v.online_peers, node_id), ..v },
                "[SYSTEM] "@ + node_id + " disconnected: "@ + reason,
            ),
            false,
        ),
        EventV::SystemNotice(msg) => (sys_line(v, "[SYSTEM] "@ + msg), false),
        EventV::CommandOutput(line) => (sys_line(v, line), false),
        EventV::NodeShutdown => (sys_line(v, "[SYSTEM] Node has shut down gracefully."@), true),
    }
}

/// What a command line does: the new screen, the actions, and whether the
/// console quits.
pub open spec fn dispatch_spec(v: ChatView, cmd: Seq<char>) -> (ChatView, Seq<ActV>, bool) {
    let parts = words(cmd);
    if parts.len() == 0 {
        (v, seq![], false)
    } else if parts[0] == "quit"@ || parts[0] == "exit"@ {
        (v, seq![ActV::Node(CmdV::Quit)], true)
    } else if parts[0] == "help"@ {
        (help_view(v), seq![], false)
    } else if parts[0] == "list"@ {
        (v, seq![ActV::Node(CmdV::ListConnected)], false)
    } else if parts[0] == "peers"@ {
        (v, seq![ActV::Node(CmdV::ListPeers)], false)
    } else if parts[0] == "connect"@ {
        if parts.len() != 2 && parts.len() != 3 {
            (
                sys_line(v, "Usage: connect <ip>  |  connect <ip:port>  |  connect <node_id>"@),
                seq![],
                false,
            )
        } else {
            (v, seq![ActV::Connect(parts[1])], false)
        }
    } else if parts[0] == "chat"@ {
        if parts.len() >= 2 {
            (
                sys_line(
                    ChatView { current_chat: Some(parts[1]), ..v },
                    "Entering chat with '"@ + parts[1] + "'. Type to send, /exit to leave."@,
                ),
                seq![ActV::Node(CmdV::Chat(Some(parts[1])))],
                false,
            )
        } else if v.current_chat is Some {
            (
                sys_line(
                    ChatView { current_chat: None, ..v },
                    "Left chat with '"@ + v.current_chat->0 + "'"@,
                ),
                seq![ActV::Node(CmdV::Chat(None))],
                false,
            )
        } else {
            (sys_line(v, "Not in chat mode"@), seq![], false)
        }
    } else if parts[0] == "send"@ {
        if parts.len() >= 3 {
            (
                v,
                seq![
                    ActV::Node(
                        CmdV::SendMessage {
                            to: parts[1],
                            content: join_spaced(parts.subrange(2, parts.len() as int)),
                        },
                    ),
                ],
                false,
            )
        } else {
            (sys_line(v, "Usage: send <node_id> <message>"@), seq![], false)
        }
    } else if parts[0] == "broadcast"@ {
        if parts.len() >= 2 {
            (
                v,
                seq![
                    ActV::Node(
                        CmdV::BroadcastMessage {
                            content: join_spaced(parts.subrange(1, parts.len() as int)),
                        },
                    ),
                ],
                false,
            )
        } else {
            (sys_line(v, "Usage: broadcast <message>"@), seq![], false)
        }
    } else {
        (
            sys_line(
                v,
                "Unknown command '"@ + parts[0] + "'. Type 'help' for available commands."@,
            ),
            seq![],
            false,
        )
    }
}

/// The words of `cmd` after the first `skip` are all words.
pub(crate) proof fn lemma_tail_words(cmd: Seq<char>, skip: int)
    requires
        0 <= skip <= words(cmd).len(),
    ensures
        words(join_spaced(words(cmd).subrange(skip, words(cmd).len() as int))) == words(cmd).subrange(
            skip,
            words(cmd).len() as int,
        ),
{
    let ws = words(cmd);
    let tail = ws.subrange(skip, ws.len() as int);
    crate::text::lemma_words_are_words(cmd);
    assert forall|k: int| 0 <= k < tail.len() implies crate::text::is_word(#[trigger] tail[k]) by {
        assert(tail[k] == ws[skip + k]);
    }
    crate::text::lemma_words_of_joined(tail);
}

/// A `broadcast` command line with words after the command broadcasts
/// them all: the content is those words joined by single spaces, so
/// splitting it gives back every word after `broadcast`.
pub proof fn lemma_broadcast_keeps_every_word(v: ChatView, cmd: Seq<char>)
    requires
        words(cmd).len() >= 2,
        words(cmd)[0] == "broadcast"@,
    ensures
        dispatch_spec(v, cmd).0 == v,
        !dispatch_spec(v, cmd).2,
        dispatch_spec(v, cmd).1.len() == 1,
        dispatch_spec(v, cmd).1[0] matches ActV::Node(CmdV::BroadcastMessage { content })
            && words(content) == words(cmd).subrange(1, words(cmd).len() as int)
            && content == join_spaced(words(cmd).subrange(1, words(cmd).len() as int)),
{
    reveal_strlit("broadcast");
    reveal_strlit("quit");
    reveal_strlit("exit");
    reveal_strlit("help");
    reveal_strlit("list");
    reveal_strlit("peers");
    reveal_strlit("connect");
    reveal_strlit("chat");
    reveal_strlit("send");
    lemma_tail_words(cmd, 1);
}

/// A `send` command line with a node id and words after it sends those
/// words to that node: the content is the words after the id joined by
/// single spaces, so splitting it gives every one of them back.
pub proof fn lemma_send_keeps_every_word(v: ChatView, cmd: Seq<char>)
    requires
        words(cmd).len() >= 3,
        words(cmd)[0] == "send"@,
    ensures
        dispatch_spec(v, cmd).0 == v,
        !dispatch_spec(v, cmd).2,
        dispatch_spec(v, cmd).1.len() == 1,
        dispatch_spec(v, cmd).1[0] matches ActV::Node(CmdV::SendMessage { to, content })
            && to == words(cmd)[1]
            && words(content) == words(cmd).subrange(2, words(cmd).len() as int)
            && content == join_spaced(words(cmd).subrange(2, words(cmd).len() as int)),
{
    reveal_strlit("quit");
    reveal_strlit("exit");
    reveal_strlit("help");
    reveal_strlit("list");
    reveal_strlit("peers");
    reveal_strlit("connect");
    reveal_strlit("chat");
    reveal_strlit("send");
    let w0 = words(cmd)[0];
    assert(w0[0] == 's');
    assert(w0 != "quit"@ && w0 != "exit"@ && w0 != "help"@ && w0 != "list"@);
    assert(w0 != "peers"@ && w0 != "connect"@ && w0 != "chat"@);
    lemma_tail_words(cmd, 2);
}

/// `s` starts with a slash.
pub open spec fn slashed(s: Seq<char>) -> bool {
    s.len() > 0 && s[0] == '/'
}

/// What an entered (trimmed, non-empty) line does: in chat mode a line is
/// sent to the partner unless it starts with `/`, which runs a command
/// (`/exit` or `/chat` leave chat mode); otherwise it is a command, with
/// an optional leading `/`.
pub open spec fn route_spec(v: ChatView, input: Seq<char>) -> (ChatView, Seq<ActV>, bool) {
    match v.current_chat {
        Some(partner) => if slashed(input) {
            let cmd = trim(input.drop_first());
            if cmd == "exit"@ || cmd == "chat"@ {
                (
                    sys_line(ChatView { current_chat: None, ..v }, "Left chat with '"@ + partner + "'"@),
                    seq![ActV::Node(CmdV::Chat(None))],
                    false,
                )
            } else {
                dispatch_spec(v, cmd)
            }
        } else {
            (v, seq![ActV::Node(CmdV::SendMessage { to: partner, content: input })], false)
        },
        None => dispatch_spec(
            v,
            if slashed(input) {
                input.drop_first()
            } else {
                input
            },
        ),
    }
}

/// The screen once the typed line is entered: the line (trimmed) joins the
/// history unless it repeats the last entry, the input is cleared and the
/// pane follows the latest line again.
pub open spec fn enter_view(v: ChatView) -> ChatView {
    let input = trim(v.input);
    let history = if v.history.len() > 0 && v.history.last() == input {
        v.history
    } else {
        v.history.push(input)
    };
    ChatView { history, history_idx: None, input: seq![], scroll_offset: 0, ..v }
}

/// What a key press does to the chat screen: the new screen, the actions,
/// and whether the console quits.
pub open spec fn key_spec(v: ChatView, key: Key) -> (ChatView, Seq<ActV>, bool) {
    match key {
        Key::Enter => {
            let input = trim(v.input);
            if input.len() == 0 {
                (v, seq![], false)
            } else {
                route_spec(enter_view(v), input)
            }
        },
        Key::CtrlC => (v, seq![ActV::Node(CmdV::Quit)], true),
        Key::Char(c) => (ChatView { history_idx: None, input: v.input.push(c), ..v }, seq![], false),
        Key::Backspace => (
            ChatView {
                input: if v.input.len() > 0 {
                    v.input.drop_last()
                } else {
                    v.input
                },
                ..v
            },
            seq![],
            false,
        ),
        Key::Up => if v.input.len() == 0 {
            (ChatView { scroll_offset: (v.scroll_offset + 1) as usize, ..v }, seq![], false)
        } else if v.history.len() > 0 {
            let idx: usize = match v.history_idx {
                None => (v.history.len() - 1) as usize,
                Some(i) => if i == 0 {
                    0
                } else {
                    (i - 1) as usize
                },
            };
            (ChatView { history_idx: Some(idx), input: v.history[idx as int], ..v }, seq![], false)
        } else {
            (v, seq![], false)
        },
        Key::Down => if v.input.len() == 0 {
            (
                ChatView {
                    scroll_offset: if v.scroll_offset > 0 {
                        (v.scroll_offset - 1) as usize
                    } else {
                        0
                    },
                    ..v
                },
                seq![],
                false,
            )
        } else {
            match v.history_idx {
                Some(idx) => if idx + 1 < v.history.len() {
                    (
                        ChatView {
                            history_idx: Some((idx + 1) as usize),
                            input: v.history[idx + 1],
                            ..v
                        },
                        seq![],
                        false,
                    )
                } else {
                    (ChatView { history_idx: None, input: seq![], ..v }, seq![], false)
                },
                None => (v, seq![], false),
            }
        },
        Key::PageUp => (
            ChatView {
                scroll_offset: if v.scroll_offset + 10 > usize::MAX {
                    usize::MAX
                } else {
                    (v.scroll_offset + 10) as usize
                },
                ..v
            },
            seq![],
            false,
        ),
        Key::PageDown => (
            ChatView {
                scroll_offset: if v.scroll_offset >= 10 {
                    (v.scroll_offset - 10) as usize
                } else {
                    0
                },
                ..v
            },
            seq![],
            false,
        ),
        Key::Esc => (ChatView { scroll_offset: 0, ..v }, seq![], false),
        _ => (v, seq![], false),
    }
}

/// First line of the message pane to draw, for a pane that shows `height`
/// lines out of `total`, scrolled `scroll` lines up from the bottom (the
/// scroll is clamped to the top).
pub open spec fn visible_start_spec(total: usize, height: usize, scroll: usize) -> usize {
    if total <= height {
        0
    } else {
        let max_scroll = (total - height) as usize;
        (max_scroll - if scroll < max_scroll {
            scroll
        } else {
            max_scroll
        }) as usize
    }
}

/// Computes [`visible_start_spec`].
pub fn visible_start(total: usize, height: usize, scroll: usize) -> (r: usize)
    ensures
        r == visible_start_spec(total, height, scroll),
{
    if total <= height {
        0
    } else {
        let max_scroll = total - height;
        let clamped = if scroll < max_scroll {
            scroll
        } else {
            max_scroll
        };
        max_scroll - clamped
    }
}

/// Whether the setup dialog's inner area, `height` rows by `width`
/// columns, is too small to draw its fields.
pub fn setup_too_small(height: u16, width: u16) -> (r: bool)
    ensures
        r == (height < 10 || width < 32),
{
    height < 10 || width < 32
}

/// The column of the text cursor in a bordered input box at column `x`,
/// `width` columns wide, holding text `len` bytes long: just after the
/// text (its length taken as a `u16`), but no further right than the last
/// column inside the border.
pub open spec fn cursor_column_spec(x: u16, width: u16, len: usize) -> int {
    let after = x + 1 + (len as u16);
    let last = x + if width >= 2 {
        width - 2
    } else {
        0
    };
    if after < last {
        after
    } else {
        last
    }
}

/// Computes [`cursor_column_spec`].
pub fn cursor_column(x: u16, width: u16, len: usize) -> (r: u16)
    requires
        x + 1 + (len as u16) <= u16::MAX,
        width >= 2 ==> x + width - 2 <= u16::MAX,
    ensures
        r == cursor_column_spec(x, width, len),
{
    let after = x + 1 + (len as u16);
    let last = x + width.saturating_sub(2);
    if after < last {
        after
    } else {
        last
    }
}

impl ChatScreen {
    /// Invariant of the screen (see [`view_wf`]).
    pub open spec fn wf(&self) -> bool {
        view_wf(self@)
    }

    /// An empty chat screen.
    pub fn new() -> (r: Self)
        ensures
            r.wf(),
            r@ == empty_chat(),
    {
        let r = ChatScreen {
            messages: VecDeque::new(),
            input: String::new(),
            current_chat: None,
            online_peers: Vec::new(),
            scroll_offset: 0,
            history: Vec::new(),
            history_idx: None,
        };
        assert(r@ =~= (ChatView {
            messages: seq![],
            input: seq![],
            current_chat: None,
            online_peers: seq![],
            scroll_offset: 0,
            history: seq![],
            history_idx: None,
        }));
        r
    }

    /// Adds a line to the pane, dropping the oldest when it is full.
    pub fn push(&mut self, line: DisplayLine)
        requires
            old(self).wf(),
        ensures
            final(self).wf(),
            final(self)@ == push_line(old(self)@, line@),
    {
        let ghost l = line@;
        if self.messages.len() >= MAX_MESSAGES {
            let _ = self.messages.pop_front();
        }
        self.messages.push_back(line);
        assert(self@ =~= push_line(old(self)@, l));
    }

    /// Adds a system line.
    pub fn system(&mut self, text: String)
        requires
            old(self).wf(),
        ensures
            final(self).wf(),
            final(self)@ == sys_line(old(self)@, text@),
    {
        self.push(DisplayLine { kind: LineKind::System, text });
    }

    /// Adds a system line for each text, in order.
    pub fn system_all(&mut self, lines: Vec<String>)
        requires
            old(self).wf(),
        ensures
            final(self).wf(),
            final(self)@ == sys_lines(old(self)@, texts(lines@)),
    {
        let ghost v = self@;
        let ghost ts = texts(lines@);
        let n = lines.len();
        let mut i: usize = 0;
        assert(ts.take(0) =~= Seq::<Seq<char>>::empty());
        while i < n
            invariant
                self.wf(),
                n == lines@.len(),
                ts == texts(lines@),
                i <= n,
                self@ == sys_lines(v, ts.take(i as int)),
            decreases n - i,
        {
            self.system(lines[i].clone());
            assert(ts.take(i + 1).drop_last() =~= ts.take(i as int));
            i = i + 1;
        }
        assert(ts.take(n as int) =~= ts);
    }

    /// Shows the start-up lines with the command reminder `commands`.
    pub(crate) fn show_banner_with(&mut self, node_id: &str, username: &str, port: u16, lan_ip: &str, commands: String)
        requires
            old(self).wf(),
        ensures
            final(self).wf(),
            final(self)@ == sys_lines(old(self)@, banner_with(node_id@, username@, port, lan_ip@, commands@)),
    {
        let mut rule = String::new();
        let mut i: usize = 0;
        while i < 71
            invariant
                i <= 71,
                rule@ == Seq::new(i as nat, |j: int| '\u{2500}'),
            decreases 71 - i,
        {
            push_char(&mut rule, '\u{2500}');
            assert(rule@ =~= Seq::new((i + 1) as nat, |j: int| '\u{2500}'));
            i = i + 1;
        }
        let p = decimal_string(port as u64);
        let mut who = cat(String::from_str("Node: "), node_id);
        who = cat(who, " (");
        who = cat(who, username);
        who = cat(who, ")");
        let mut listen = cat(String::from_str("Listening \u{2192} local: 127.0.0.1:"), p.as_str());
        listen = cat(listen, "   LAN: ");
        listen = cat(listen, lan_ip);
        listen = cat(listen, ":");
        listen = cat(listen, p.as_str());
        let lines: Vec<String> = vec![
            rule.clone(),
            who,
            listen,
            String::from_str("Share the LAN address with peers so they can connect to you."),
            commands,
            String::from_str("Keys: \u{2191}\u{2193} scroll/history | PageUp/Dn | Esc=bottom | Ctrl-C quit"),
            rule,
        ];
        assert(texts(lines@) =~= banner_with(node_id@, username@, port, lan_ip@, commands@));
        self.system_all(lines);
    }

    /// Shows the start-up lines for node `node_id` (`username`) listening on
    /// `port`, reachable on the LAN at `lan_ip`.
    pub fn show_banner(&mut self, node_id: &str, username: &str, port: u16, lan_ip: &str)
        requires
            old(self).wf(),
        ensures
            final(self).wf(),
            final(self)@ == sys_lines(old(self)@, console_banner_texts(node_id@, username@, port, lan_ip@)),
    {
        self.show_banner_with(
            node_id,
            username,
            port,
            lan_ip,
            String::from_str("Commands: help | connect | chat | list | peers | send | broadcast | quit"),
        );
    }

    /// The title of the message pane.
    pub fn title(&self) -> (r: String)
        ensures
            r@ == title_text(self@),
    {
        let n = self.online_peers.len();
        let mut t = if n == 0 {
            String::from_str(" P2P Chat (no peers online) ")
        } else {
            let ghost ps = texts(self.online_peers@);
            let mut j = self.online_peers[0].clone();
            let mut i: usize = 1;
            assert(ps.take(1) =~= seq![ps[0]]);
            while i < n
                invariant
                    n == self.online_peers@.len(),
                    ps == texts(self.online_peers@),
                    1 <= i <= n,
                    j@ == join_comma(ps.take(i as int)),
                decreases n - i,
            {
                j = cat(j, ", ");
                j = cat(j, self.online_peers[i].as_str());
                assert(ps.take(i + 1).drop_last() =~= ps.take(i as int));
                assert(", "@ =~= seq![',', ' ']) by {
                    reveal_strlit(", ");
                }
                i = i + 1;
            }
            assert(ps.take(n as int) =~= ps);
            let t = cat(String::from_str(" P2P Chat | Online: "), j.as_str());
            cat(t, " ")
        };
        if self.scroll_offset > 0 {
            let d = decimal_string(self.scroll_offset as u64);
            t = cat(t, " \u{2191}");
            t = cat(t, d.as_str());
            t = cat(t, " ");
        }
        t
    }

    /// The input line as shown.
    pub fn prompt(&self) -> (r: String)
        ensures
            r@ == prompt_text(self@),
    {
        match &self.current_chat {
            Some(p) => {
                let s = cat(String::from_str("["), p.as_str());
                let s = cat(s, "]> ");
                cat(s, self.input.as_str())
            },
            None => cat(String::from_str("> "), self.input.as_str()),
        }
    }

    pub(crate) fn set_chat(&mut self, c: Option<String>)
        requires
            old(self).wf(),
        ensures
            final(self).wf(),
            final(self)@ == (ChatView { current_chat: opt_text(c), ..old(self)@ }),
    {
        self.current_chat = c;
        assert(self@ =~= (ChatView { current_chat: opt_text(c), ..old(self)@ }));
    }

    pub(crate) fn has_online(&self, id: &str) -> (r: bool)
        ensures
            r == self@.online_peers.contains(id@),
    {
        let n = self.online_peers.len();
        let mut i: usize = 0;
        while i < n
            invariant
                n == self.online_peers@.len(),
                i <= n,
                forall|j: int| 0 <= j < i ==> self.online_peers@[j]@ != id@,
            decreases n - i,
        {
            if str_is(self.online_peers[i].as_str(), id) {
                assert(self@.online_peers[i as int] == id@);
                return true;
            }
            i = i + 1;
        }
        assert(!self@.online_peers.contains(id@)) by {
            if self@.online_peers.contains(id@) {
                let j = choose|j: int| 0 <= j < self@.online_peers.len() && self@.online_peers[j] == id@;
                assert(self.online_peers@[j]@ == id@);
            }
        }
        false
    }

    pub(crate) fn remove_online(&mut self, id: &str)
        requires
            old(self).wf(),
        ensures
            final(self).wf(),
            final(self)@ == (ChatView {
                online_peers: without(old(self)@.online_peers, id@),
                ..old(self)@
            }),
    {
        let ghost all = old(self)@.online_peers;
        let ghost pred = |p: Seq<char>| p != id@;
        let mut kept: Vec<String> = Vec::new();
        let n = self.online_peers.len();
        let mut i: usize = 0;
        while i < n
            invariant
                n == self.online_peers@.len(),
                all == texts(self.online_peers@),
                pred == (|p: Seq<char>| p != id@),
                i <= n,
                texts(kept@) == all.take(i as int).filter(pred),
            decreases n - i,
        {
            reveal_with_fuel(Seq::<_>::filter, 1);
            assert(all.take(i + 1).drop_last() =~= all.take(i as int));
            if !str_is(self.online_peers[i].as_str(), id) {
                kept.push(self.online_peers[i].clone());
                assert(texts(kept@) =~= all.take(i + 1).filter(pred));
            } else {
                assert(texts(kept@) =~= all.take(i + 1).filter(pred));
            }
            i = i + 1;
        }
        assert(all.take(n as int) =~= all);
        self.online_peers = kept;
        assert(self@ =~= (ChatView { online_peers: without(old(self)@.online_peers, id@), ..old(self)@ }));
    }

    /// Shows a node event; returns `true` once the node has shut down.
    pub fn handle_app_event(&mut self, event: AppEvent) -> (stop: bool)
        requires
            old(self).wf(),
        ensures
            final(self).wf(),
            final(self)@ == on_event(old(self)@, event@).0,
            stop == on_event(old(self)@, event@).1,
    {
        let ghost v0 = self@;
        let ghost ev = event@;
        match event {
            AppEvent::MessageReceived { from_id, from_name, to, content, timestamp } => {
                let t = format_time(timestamp);
                let mut s = String::from_str("[");
                s = cat(s, t.as_str());
                s = cat(s, "] ");
                s = cat(s, from_name.as_str());
                s = cat(s, " (");
                s = cat(s, from_id.as_str());
                match to {
                    Some(_) => {
                        s = cat(s, "): ");
                    },
                    None => {
                        s = cat(s, ") \u{2192} all: ");
                    },
                }
                s = cat(s, content.as_str());
                assert(s@ =~= received_text(from_id@, from_name@, opt_text(to), content@, timestamp));
                assert(ev == EventV::MessageReceived { from_id: from_id@, from_name: from_name@, to: opt_text(to), content: content@, timestamp });
                self.push(DisplayLine { kind: LineKind::Incoming, text: s });
                assert(self@ == on_event(v0, ev).0);
                false
            },
            AppEvent::MessageSent { to, content, timestamp, ok_count, total, our_id, .. } => {
                let t = format_time(timestamp);
                let mut s = String::from_str("[");
                s = cat(s, t.as_str());
                s = cat(s, "] You (");
                s = cat(s, our_id.as_str());
                match to {
                    Some(dest) => {
                        s = cat(s, ") \u{2192} ");
                        s = cat(s, dest.as_str());
                        s = cat(s, ": ");
                    },
                    None => {
                        s = cat(s, ") \u{2192} all [");
                        let a = decimal_string(ok_count as u64);
                        s = cat(s, a.as_str());
                        s = cat(s, "/");
                        let b = decimal_string(total as u64);
                        s = cat(s, b.as_str());
                        s = cat(s, "]: ");
                    },
                }
                s = cat(s, content.as_str());
                assert(s@ =~= sent_text(opt_text(to), content@, timestamp, ok_count, total, our_id@));
                self.push(DisplayLine { kind: LineKind::Outgoing, text: s });
                assert(self@ == on_event(v0, ev).0);
                false
            },
            AppEvent::PeerConnected { node_id, username } => {
                let ghost v0 = self@;
                if !self.has_online(node_id.as_str()) {
                    self.online_peers.push(node_id.clone());
                    assert(self@ =~= (ChatView { online_peers: v0.online_peers.push(node_id@), ..v0 }));
                }
                let mut s = String::from_str("[SYSTEM] ");
                s = cat(s, node_id.as_str());
                s = cat(s, " (");
                s = cat(s, username.as_str());
                s = cat(s, ") connected");
                self.system(s);
                assert(self@ == on_event(v0, ev).0);
                false
            },
            AppEvent::PeerDisconnected { node_id, reason } => {
                self.remove_online(node_id.as_str());
                let mut s = String::from_str("[SYSTEM] ");
                s = cat(s, node_id.as_str());
                s = cat(s, " disconnected: ");
                s = cat(s, reason.as_str());
                assert(s@ =~= "[SYSTEM] "@ + node_id@ + " disconnected: "@ + reason@);
                self.system(s);
                assert(self@ == on_event(v0, ev).0);
                false
            },
            AppEvent::SystemNotice(msg) => {
                let s = cat(String::from_str("[SYSTEM] "), msg.as_str());
                self.system(s);
                assert(self@ == on_event(v0, ev).0);
                false
            },
            AppEvent::CommandOutput(line) => {
                self.system(line);
                false
            },
            AppEvent::NodeShutdown => {
                self.system(String::from_str("[SYSTEM] Node has shut down gracefully."));
                true
            },
        }
    }

    /// Shows the help text.
    fn help(&mut self)
        requires
            old(self).wf(),
        ensures
            final(self).wf(),
            final(self)@ == help_view(old(self)@),
    {
        self.system(String::from_str("Commands:"));
        self.system(String::from_str("  connect <ip>       - Connect by IP (probes ports 9000-9004 concurrently)"));
        self.system(String::from_str("  connect <ip:port>  - Connect to a peer at an explicit address"));
        self.system(String::from_str("  connect <node_id>  - Reconnect to a known peer (registry lookup)"));
        self.system(String::from_str("  chat <node_id>               - Enter focused chat mode with a peer"));
        self.system(String::from_str("  chat                         - Exit chat mode"));
        self.system(String::from_str("  list                         - Show currently connected peers"));
        self.system(String::from_str("  peers                        - Show all known peers (with online status)"));
        self.system(String::from_str("  send <node_id> <message>     - Send a direct message"));
        self.system(String::from_str("  broadcast <message>          - Broadcast to all connected peers"));
        self.system(String::from_str("  quit                         - Exit the application"));
        self.system(String::from_str(""));
        self.system(String::from_str("In chat mode:"));
        self.system(String::from_str("  <message>     - Send message to current chat partner"));
        self.system(String::from_str("  /exit         - Leave chat mode"));
        self.system(String::from_str("  /<command>    - Run any command (e.g. /list, /peers)"));
        self.system(String::from_str(""));
        self.system(String::from_str("Keys: ↑↓ = scroll (empty input) or history | PageUp/Dn | Esc = bottom"));
    }

    /// Runs one command line.
    pub fn dispatch(&mut self, cmd: &str) -> (r: (Vec<UiAction>, bool))
        requires
            old(self).wf(),
        ensures
            final(self).wf(),
            final(self)@ == dispatch_spec(old(self)@, cmd@).0,
            acts_view(r.0@) == dispatch_spec(old(self)@, cmd@).1,
            r.1 == dispatch_spec(old(self)@, cmd@).2,
    {
        let ghost v = self@;
        let parts = split_words(cmd);
        let ghost ws = words(cmd@);
        let mut acts: Vec<UiAction> = Vec::new();
        if parts.len() == 0 {
            assert(acts_view(acts@) =~= seq![]);
            return (acts, false);
        }
        assert(parts@[0]@ == ws[0]);
        let p0 = parts[0].as_str();
        if str_is(p0, "quit") || str_is(p0, "exit") {
            acts.push(UiAction::Node(NodeCommand::Quit));
            assert(acts_view(acts@) =~= seq![ActV::Node(CmdV::Quit)]);
            return (acts, true);
        }
        if str_is(p0, "help") {
            self.help();
            assert(acts_view(acts@) =~= seq![]);
            return (acts, false);
        }
        if str_is(p0, "list") {
            acts.push(UiAction::Node(NodeCommand::ListConnected));
            assert(acts_view(acts@) =~= seq![ActV::Node(CmdV::ListConnected)]);
            return (acts, false);
        }
        if str_is(p0, "peers") {
            acts.push(UiAction::Node(NodeCommand::ListPeers));
            assert(acts_view(acts@) =~= seq![ActV::Node(CmdV::ListPeers)]);
            return (acts, false);
        }
        if str_is(p0, "connect") {
            if parts.len() != 2 && parts.len() != 3 {
                self.system(String::from_str("Usage: connect <ip>  |  connect <ip:port>  |  connect <node_id>"));
            } else {
                assert(parts@[1]@ == ws[1]);
                acts.push(UiAction::Connect(parts[1].clone()));
            }
            assert(acts_view(acts@) =~= dispatch_spec(v, cmd@).1);
            return (acts, false);
        }
        if str_is(p0, "chat") {
            if parts.len() >= 2 {
                assert(parts@[1]@ == ws[1]);
                self.set_chat(Some(parts[1].clone()));
                let mut s = String::from_str("Entering chat with '");
                s = cat(s, parts[1].as_str());
                s = cat(s, "'. Type to send, /exit to leave.");
                self.system(s);
                acts.push(UiAction::Node(NodeCommand::Chat(Some(parts[1].clone()))));
            } else {
                let cur = match &self.current_chat {
                    Some(p) => Some(p.clone()),
                    None => None,
                };
                match cur {
                    Some(p) => {
                        self.set_chat(None);
                        let mut s = String::from_str("Left chat with '");
                        s = cat(s, p.as_str());
                        s = cat(s, "'");
                        self.system(s);
                        acts.push(UiAction::Node(NodeCommand::Chat(None)));
                    },
                    None => {
                        self.system(String::from_str("Not in chat mode"));
                    },
                }
            }
            assert(acts_view(acts@) =~= dispatch_spec(v, cmd@).1);
            return (acts, false);
        }
        if str_is(p0, "send") {
            if parts.len() >= 3 {
                assert(parts@[1]@ == ws[1]);
                let content = join_from(&parts, 2);
                assert(Seq::new((parts@.len() - 2) as nat, |k: int| parts@[2 + k]@) =~= ws.subrange(2, ws.len() as int));
                acts.push(UiAction::Node(NodeCommand::SendMessage { to: parts[1].clone(), content }));
            } else {
                self.system(String::from_str("Usage: send <node_id> <message>"));
            }
            assert(acts_view(acts@) =~= dispatch_spec(v, cmd@).1);
            return (acts, false);
        }
        if str_is(p0, "broadcast") {
            if parts.len() >= 2 {
                let content = join_from(&parts, 1);
                assert(Seq::new((parts@.len() - 1) as nat, |k: int| parts@[1 + k]@) =~= ws.subrange(1, ws.len() as int));
                acts.push(UiAction::Node(NodeCommand::BroadcastMessage { content }));
            } else {
                self.system(String::from_str("Usage: broadcast <message>"));
            }
            assert(acts_view(acts@) =~= dispatch_spec(v, cmd@).1);
            return (acts, false);
        }
        let mut s = String::from_str("Unknown command '");
        s = cat(s, p0);
        s = cat(s, "'. Type 'help' for available commands.");
        self.system(s);
        assert(acts_view(acts@) =~= seq![]);
        (acts, false)
    }

    /// Handles one entered line (already trimmed and non-empty).
    pub fn route_input(&mut self, input: String) -> (r: (Vec<UiAction>, bool))
        requires
            old(self).wf(),
        ensures
            final(self).wf(),
            final(self)@ == route_spec(old(self)@, input@).0,
            acts_view(r.0@) == route_spec(old(self)@, input@).1,
            r.1 == route_spec(old(self)@, input@).2,
    {
        let ghost v = self@;
        let cs = chars_of(input.as_str());
        let slash = cs.len() > 0 && cs[0] == '/';
        let rest = if slash {
            string_from_chars(cs.as_slice(), 1, cs.len())
        } else {
            String::new()
        };
        assert(slash ==> rest@ =~= input@.drop_first());
        let cur = match &self.current_chat {
            Some(p) => Some(p.clone()),
            None => None,
        };
        match cur {
            Some(partner) => {
                if slash {
                    let cmd = trim_str(rest.as_str());
                    if str_is(cmd.as_str(), "exit") || str_is(cmd.as_str(), "chat") {
                        self.set_chat(None);
                        let mut s = String::from_str("Left chat with '");
                        s = cat(s, partner.as_str());
                        s = cat(s, "'");
                        self.system(s);
                        let mut acts: Vec<UiAction> = Vec::new();
                        acts.push(UiAction::Node(NodeCommand::Chat(None)));
                        assert(acts_view(acts@) =~= seq![ActV::Node(CmdV::Chat(None))]);
                        (acts, false)
                    } else {
                        self.dispatch(cmd.as_str())
                    }
                } else {
                    let mut acts: Vec<UiAction> = Vec::new();
                    acts.push(UiAction::Node(NodeCommand::SendMessage { to: partner, content: input }));
                    assert(acts_view(acts@) =~= route_spec(v, input@).1);
                    (acts, false)
                }
            },
            None => {
                if slash {
                    self.dispatch(rest.as_str())
                } else {
                    self.dispatch(input.as_str())
                }
            },
        }
    }

    /// Takes the typed line when Enter is pressed: `None` when it is blank
    /// (nothing changes), otherwise the trimmed line, with the screen as
    /// [`enter_view`] says.
    pub fn take_input(&mut self) -> (r: Option<String>)
        requires
            old(self).wf(),
        ensures
            final(self).wf(),
            match r {
                None => trim(old(self)@.input).len() == 0 && final(self)@ == old(self)@,
                Some(s) => s@ == trim(old(self)@.input) && s@.len() > 0 && final(self)@ == enter_view(old(self)@),
            },
    {
        let ghost v = self@;
        let input = trim_str(self.input.as_str());
        if input.as_str().unicode_len() == 0 {
            return None;
        }
        let hl = self.history.len();
        let same = hl > 0 && str_is(self.history[hl - 1].as_str(), input.as_str());
        if !same {
            self.history.push(input.clone());
        }
        self.history_idx = None;
        self.input = String::new();
        self.scroll_offset = 0;
        assert(self@ =~= enter_view(v));
        Some(input)
    }

    /// Handles a key press; returns the actions to perform and whether the
    /// console quits.
    pub fn handle_key(&mut self, key: Key) -> (r: (Vec<UiAction>, bool))
        requires
            old(self).wf(),
            key == Key::Up && old(self)@.input.len() == 0 ==> old(self).scroll_offset < usize::MAX,
        ensures
            final(self).wf(),
            final(self)@ == key_spec(old(self)@, key).0,
            acts_view(r.0@) == key_spec(old(self)@, key).1,
            r.1 == key_spec(old(self)@, key).2,
    {
        let ghost v = self@;
        let none: Vec<UiAction> = Vec::new();
        assert(acts_view(none@) =~= seq![]);
        match key {
            Key::Enter => match self.take_input() {
                Some(input) => self.route_input(input),
                None => (none, false),
            },
            Key::CtrlC => {
                let mut acts: Vec<UiAction> = Vec::new();
                acts.push(UiAction::Node(NodeCommand::Quit));
                assert(acts_view(acts@) =~= seq![ActV::Node(CmdV::Quit)]);
                (acts, true)
            },
            Key::Char(c) => {
                self.history_idx = None;
                push_char(&mut self.input, c);
                assert(self@ =~= key_spec(v, key).0);
                (none, false)
            },
            Key::Backspace => {
                let _ = crate::text::pop_char(&mut self.input);
                assert(self@ =~= key_spec(v, key).0);
                (none, false)
            },
            Key::Up => {
                if self.input.as_str().unicode_len() == 0 {
                    self.scroll_offset = self.scroll_offset + 1;
                } else {
                    let len = self.history.len();
                    if len > 0 {
                        let idx = match self.history_idx {
                            None => len - 1,
                            Some(i) => if i == 0 {
                                0
                            } else {
                                i - 1
                            },
                        };
                        self.history_idx = Some(idx);
                        self.input = self.history[idx].clone();
                    }
                }
                assert(self@ =~= key_spec(v, key).0);
                (none, false)
            },
            Key::Down => {
                if self.input.as_str().unicode_len() == 0 {
                    self.scroll_offset = self.scroll_offset.saturating_sub(1);
                } else {
                    match self.history_idx {
                        Some(idx) => {
                            assert(idx < self.history@.len());
                            if idx < self.history.len() - 1 {
                                let ni = idx + 1;
                                self.history_idx = Some(ni);
                                self.input = self.history[ni].clone();
                            } else {
                                self.history_idx = None;
                                self.input = String::new();
                            }
                        },
                        None => {},
                    }
                }
                assert(self@ =~= key_spec(v, key).0);
                (none, false)
            },
            Key::PageUp => {
                self.scroll_offset = self.scroll_offset.saturating_add(10);
                assert(self@ =~= key_spec(v, key).0);
                (none, false)
            },
            Key::PageDown => {
                self.scroll_offset = self.scroll_offset.saturating_sub(10);
                assert(self@ =~= key_spec(v, key).0);
                (none, false)
            },
            Key::Esc => {
                self.scroll_offset = 0;
                assert(self@ =~= key_spec(v, key).0);
                (none, false)
            },
            _ => (none, false),
        }
    }
}

/// State of the setup dialog that asks for the node id and the username.
pub struct SetupState {
    pub node_id: String,
    pub username: String,
    /// 0: the node id field is active; 1: the username field is.
    pub focus: usize,
    /// Error shown under the fields.
    pub error: Option<String>,
}

/// [`SetupState`] as a value.
#[verifier::ext_equal]
pub struct SetupV {
    pub node_id: Seq<char>,
    pub username: Seq<char>,
    pub focus: usize,
    pub error: Option<Seq<char>>,
}

impl View for SetupState {
    type V = SetupV;

    open spec fn view(&self) -> SetupV {
        SetupV {
            node_id: self.node_id@,
            username: self.username@,
            focus: self.focus,
            error: opt_text(self.error),
        }
    }
}

/// How a key press in the setup dialog ends.
#[derive(Debug)]
pub enum SetupOutcome {
    /// Keep asking.
    Continue,
    /// Both fields are filled in: the trimmed node id and username.
    Done(String, String),
    /// The user pressed Control-C.
    Cancelled,
}

/// [`SetupOutcome`] as a value.
pub enum SetupOutcomeV {
    Continue,
    Done(Seq<char>, Seq<char>),
    Cancelled,
}

impl View for SetupOutcome {
    type V = SetupOutcomeV;

    open spec fn view(&self) -> SetupOutcomeV {
        match self {
            SetupOutcome::Continue => SetupOutcomeV::Continue,
            SetupOutcome::Done(a, b) => SetupOutcomeV::Done(a@, b@),
            SetupOutcome::Cancelled => SetupOutcomeV::Cancelled,
        }
    }
}

/// What a key press does in the setup dialog. The error line is cleared
/// first; Enter validates the active field (node id, then username); Tab,
/// Up and Down move between fields; spaces are refused in the node id.
pub open spec fn setup_key_spec(v: SetupV, key: Key) -> (SetupV, SetupOutcomeV) {
    let v = SetupV { error: None, ..v };
    match key {
        Key::CtrlC => (v, SetupOutcomeV::Cancelled),
        Key::Enter => if v.focus == 0 {
            let nid = trim(v.node_id);
            if nid.len() == 0 {
                (SetupV { error: Some("Node ID cannot be empty"@), ..v }, SetupOutcomeV::Continue)
            } else {
                (SetupV { node_id: nid, focus: 1, ..v }, SetupOutcomeV::Continue)
            }
        } else {
            let nid = trim(v.node_id);
            let uname = trim(v.username);
            if nid.len() == 0 {
                (
                    SetupV { focus: 0, error: Some("Node ID cannot be empty"@), ..v },
                    SetupOutcomeV::Continue,
                )
            } else if uname.len() == 0 {
                (SetupV { error: Some("Username cannot be empty"@), ..v }, SetupOutcomeV::Continue)
            } else {
                (v, SetupOutcomeV::Done(nid, uname))
            }
        },
        Key::Tab | Key::BackTab => (SetupV { focus: (1 - v.focus) as usize, ..v }, SetupOutcomeV::Continue),
        Key::Up => (SetupV { focus: 0, ..v }, SetupOutcomeV::Continue),
        Key::Down => (SetupV { focus: 1, ..v }, SetupOutcomeV::Continue),
        Key::Backspace => if v.focus == 0 {
            (
                SetupV {
                    node_id: if v.node_id.len() > 0 {
                        v.node_id.drop_last()
                    } else {
                        v.node_id
                    },
                    ..v
                },
                SetupOutcomeV::Continue,
            )
        } else {
            (
                SetupV {
                    username: if v.username.len() > 0 {
                        v.username.drop_last()
                    } else {
                        v.username
                    },
                    ..v
                },
                SetupOutcomeV::Continue,
            )
        },
        Key::Char(c) => if v.focus == 0 {
            (
                SetupV {
                    node_id: if c != ' ' {
                        v.node_id.push(c)
                    } else {
                        v.node_id
                    },
                    ..v
                },
                SetupOutcomeV::Continue,
            )
        } else {
            (SetupV { username: v.username.push(c), ..v }, SetupOutcomeV::Continue)
        },
        _ => (v, SetupOutcomeV::Continue),
    }
}

/// The line of the setup dialog giving the local address.
pub open spec fn local_line_text(port: u16) -> Seq<char> {
    "Local  127.0.0.1:"@ + decimal(port as nat) + "   (same machine)"@
}

/// The line of the setup dialog giving the LAN address (`lan_ip` is
/// `unknown` when it could not be found).
pub open spec fn lan_line_text(lan_ip: Seq<char>, port: u16) -> Seq<char> {
    if lan_ip == "unknown"@ {
        "LAN    <ip>:"@ + decimal(port as nat) + "   (share with peers on your network)"@
    } else {
        "LAN    "@ + lan_ip + ":"@ + decimal(port as nat) + "   \u{2190} share this address with peers"@
    }
}

/// The line under the fields of the setup dialog: the error if there is
/// one (`true`), otherwise a hint for the active field (`false`).
pub open spec fn setup_hint_text(v: SetupV) -> (Seq<char>, bool) {
    match v.error {
        Some(e) => (e, true),
        None => if v.focus == 0 {
            ("Tab / \u{2193} / Enter \u{2192} next field   |   Ctrl-C to quit"@, false)
        } else {
            ("Tab / \u{2191} \u{2192} prev field   |   Enter \u{2192} start chatting!"@, false)
        },
    }
}

/// The local address line of the setup dialog.
pub fn local_line(port: u16) -> (r: String)
    ensures
        r@ == local_line_text(port),
{
    let p = decimal_string(port as u64);
    cat(cat(String::from_str("Local  127.0.0.1:"), p.as_str()), "   (same machine)")
}

/// The LAN address line of the setup dialog.
pub fn lan_line(lan_ip: &str, port: u16) -> (r: String)
    ensures
        r@ == lan_line_text(lan_ip@, port),
{
    let p = decimal_string(port as u64);
    if str_is(lan_ip, "unknown") {
        cat(cat(String::from_str("LAN    <ip>:"), p.as_str()), "   (share with peers on your network)")
    } else {
        let s = cat(String::from_str("LAN    "), lan_ip);
        let s = cat(cat(s, ":"), p.as_str());
        cat(s, "   \u{2190} share this address with peers")
    }
}

impl SetupState {
    /// An empty dialog with the node id field active.
    pub fn new() -> (r: Self)
        ensures
            r@ == (SetupV { node_id: seq![], username: seq![], focus: 0, error: None }),
    {
        let r = SetupState { node_id: String::new(), username: String::new(), focus: 0, error: None };
        assert(r@ =~= (SetupV { node_id: seq![], username: seq![], focus: 0, error: None }));
        r
    }

    /// The line under the fields: the error (`true`) or the hint for the
    /// active field (`false`).
    pub fn hint(&self) -> (r: (String, bool))
        ensures
            r.0@ == setup_hint_text(self@).0,
            r.1 == setup_hint_text(self@).1,
    {
        match &self.error {
            Some(e) => (e.clone(), true),
            None => if self.focus == 0 {
                (String::from_str("Tab / \u{2193} / Enter \u{2192} next field   |   Ctrl-C to quit"), false)
            } else {
                (String::from_str("Tab / \u{2191} \u{2192} prev field   |   Enter \u{2192} start chatting!"), false)
            },
        }
    }

    /// Handles a key press in the setup dialog.
    pub fn handle_key(&mut self, key: Key) -> (r: SetupOutcome)
        requires
            old(self).focus <= 1,
        ensures
            final(self).focus <= 1,
            final(self)@ == setup_key_spec(old(self)@, key).0,
            r@ == setup_key_spec(old(self)@, key).1,
    {
        let ghost v0 = self@;
        self.error = None;
        match key {
            Key::CtrlC => {
                assert(self@ =~= setup_key_spec(v0, key).0);
                SetupOutcome::Cancelled
            },
            Key::Enter => {
                if self.focus == 0 {
                    let nid = trim_str(self.node_id.as_str());
                    if nid.as_str().unicode_len() == 0 {
                        self.error = Some(String::from_str("Node ID cannot be empty"));
                    } else {
                        self.node_id = nid;
                        self.focus = 1;
                    }
                    assert(self@ =~= setup_key_spec(v0, key).0);
                    SetupOutcome::Continue
                } else {
                    let nid = trim_str(self.node_id.as_str());
                    let uname = trim_str(self.username.as_str());
                    if nid.as_str().unicode_len() == 0 {
                        self.focus = 0;
                        self.error = Some(String::from_str("Node ID cannot be empty"));
                        assert(self@ =~= setup_key_spec(v0, key).0);
                        SetupOutcome::Continue
                    } else if uname.as_str().unicode_len() == 0 {
                        self.error = Some(String::from_str("Username cannot be empty"));
                        assert(self@ =~= setup_key_spec(v0, key).0);
                        SetupOutcome::Continue
                    } else {
                        assert(self@ =~= setup_key_spec(v0, key).0);
                        SetupOutcome::Done(nid, uname)
                    }
                }
            },
            Key::Tab | Key::BackTab => {
                self.focus = 1 - self.focus;
                assert(self@ =~= setup_key_spec(v0, key).0);
                SetupOutcome::Continue
            },
            Key::Up => {
                self.focus = 0;
                assert(self@ =~= setup_key_spec(v0, key).0);
                SetupOutcome::Continue
            },
            Key::Down => {
                self.focus = 1;
                assert(self@ =~= setup_key_spec(v0, key).0);
                SetupOutcome::Continue
            },
            Key::Backspace => {
                if self.focus == 0 {
                    let _ = crate::text::pop_char(&mut self.node_id);
                } else {
                    let _ = crate::text::pop_char(&mut self.username);
                }
                assert(self@ =~= setup_key_spec(v0, key).0);
                SetupOutcome::Continue
            },
            Key::Char(c) => {
                if self.focus == 0 {
                    if c != ' ' {
                        push_char(&mut self.node_id, c);
                    }
                } else {
                    push_char(&mut self.username, c);
                }
                assert(self@ =~= setup_key_spec(v0, key).0);
                SetupOutcome::Continue
            },
            _ => {
                assert(self@ =~= setup_key_spec(v0, key).0);
                SetupOutcome::Continue
            },
        }
    }
}

} // verus!
