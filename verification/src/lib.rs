//! Verified core of a chat-bot backend: the rules that bound what guest
//! scripts may do, and the small parsers and state machines around them.

pub mod bot;
pub mod message;
pub mod modules;
pub mod pattern;
pub mod services;
pub mod settings;
pub mod table;
pub mod text;
pub mod utils;
