//! Transport and user-interface core of an interactive client that talks to a
//! long-lived child process over line-delimited JSON-RPC 2.0.
//!
//! The library verifies the protocol logic: encoding requests, classifying
//! incoming lines as responses or notifications, correlating responses with
//! pending calls through the pending-call table, and routing streaming
//! notifications to the single active stream. It also verifies the pure parts
//! of the surrounding client: the slash-command parser, the markdown parser,
//! and the display formatting. The process, thread and terminal plumbing
//! lives outside the library and drives these functions.

pub mod codec;
pub mod command;
pub mod config;
pub mod errors;
pub mod json;
pub mod laws;
pub mod markdown;
pub mod requests;
pub mod responses;
pub mod rpc;
pub mod state;
pub mod text;
pub mod ui_state;

pub use codec::{decode_line, encode_request, Incoming};
pub use command::{Action, CommandParser};
pub use config::Config;
pub use errors::BackendError;
pub use markdown::{parse_markdown, MarkdownElement};
pub use rpc::{RpcCore, StreamEvent};
pub use ui_state::UIState;
