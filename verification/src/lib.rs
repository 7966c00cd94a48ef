//! Verified core of a guild music bot: the playback queue with its
//! append/skip/shuffle operations, the flat-playlist listing parser, and the
//! command handlers that turn user input into queue changes and replies.

pub mod commands;
pub mod listing;
pub mod queue;
pub mod session;
