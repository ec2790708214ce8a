//! The daemon's live view of Codex threads and turns: thread summaries, the turn registry, the
//! session's active turns, and how Codex events update them.

pub mod digest;
pub mod events;
pub mod ranking;
pub mod registry;
pub mod snippet;
pub mod threads;
pub mod types;
