//! A client for a line-based chat feed: decoding of protocol lines into typed
//! messages, the outbound protocol lines, and the session state machine that
//! answers keepalives, runs the handshake and dispatches messages to listeners.
pub mod lines;
pub mod parser;
pub mod session;
pub mod tags;
pub mod text;

pub use lines::{cap_request, chat_line, handshake_lines, join_line, nick_line, pass_line, pong_line, split_lines};
pub use parser::{parse_msg, parse_tags, Msg};
pub use session::{Action, Client, ConnectAction, Frame, Phase, SessionError};
pub use tags::Tags;
