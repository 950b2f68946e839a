//! The daemon's decisions: re-matching windows after a resync, choosing where
//! to show windows, reacting to compositor events.

pub mod rematch;
pub mod visibility;
pub mod events;
pub mod commands;
pub mod recovery;
