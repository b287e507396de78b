//! Session supervision for automated game logins: a bounded buffer of the
//! most recent output lines of each automation process, a table that keeps at
//! most one live process per user, and the state machine that polls a
//! third-party login until it is authorized or times out. Around them: the
//! login service's addresses, the chat commands and replies, and the layout
//! of the downloaded bot archive.

pub mod archive;
pub mod buffer;
pub mod chat;
pub mod login_api;
pub mod poller;
pub mod session;
