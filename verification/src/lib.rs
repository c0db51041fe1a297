//! An in-process publish/subscribe message bus for a chat bot.
//!
//! Named entities broadcast messages to any number of subscribers and read
//! replies back over a private feedback channel. Payloads of different types
//! cross the same channel inside a tagged envelope, and subscribers discover
//! entities by name through a registry with a version-counter wake signal.

pub mod bus;
pub mod commands;
pub mod config;
pub mod envelope;
pub mod irc_parser;
pub mod mailbox;
pub mod speech;
pub mod strutil;
