//! A client library for WeChat bots on the iLink API: the wire and message
//! types, the parsing of incoming messages, the splitting of long replies,
//! and the bot's own state with the decisions of its login and long-poll loops.

pub mod types;

pub mod clock;
pub mod chunk;
pub mod message;
pub mod error;
pub mod bot;
