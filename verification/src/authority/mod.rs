pub mod commands;
pub mod delete;
pub mod execute;
pub mod import;
pub mod laws;
pub mod listing;
pub mod plan;
pub mod query;
pub mod rules;
pub mod store;
pub mod types;
