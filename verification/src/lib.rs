//! Verified core of a peer-to-peer chat: wire framing, message model,
//! peer registry, chat history, console command handling and the
//! decision logic of the node.

pub mod text;
pub mod frame;
pub mod clock;
pub mod message;
pub mod order;
pub mod registry;
pub mod event;
pub mod console;
pub mod tui;
pub mod api;
pub mod history;
pub mod crypto;
pub mod node;
pub mod storage;
pub mod net;
pub mod app;
