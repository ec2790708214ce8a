//! The supervisor's collaboration state — workstreams, work units, workers and their sessions,
//! assignments, reports, decisions and proposals — and the transitions the daemon applies to it.

pub mod assign;
pub mod create;
pub mod decision;
pub mod generation;
pub mod keyed;
pub mod outcome;
pub mod packets;
pub mod proposals;
pub mod queries;
pub mod seeds;
pub mod sessions;
pub mod status;
pub mod summary;
pub mod types;
