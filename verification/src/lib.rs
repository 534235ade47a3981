//! Core of a chat-bot media/link transformer: recognizes configured textual
//! commands (with optional prefixes and longest-match disambiguation),
//! extracts URLs from free text, locates media attachments in message
//! segments, and drives the per-message dispatch decisions.

pub mod dispatch;
pub mod link;
pub mod matcher;
pub mod message;
pub mod num;
pub mod text;
