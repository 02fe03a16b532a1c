//! Bridge between a mailbox and an IRC channel: the pure decisions of the
//! bridge, stated over mathematical models and proved by Verus.

pub mod config;
pub mod cursor;
pub mod error;
pub mod html;
pub mod irc;
pub mod mail;
pub mod pattern;
pub mod poll;
pub mod session;
pub mod text;
pub mod transform;
