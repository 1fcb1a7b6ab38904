//! Operation lifecycle engine for an assistant that edits live spreadsheets.

pub mod classify;
pub mod laws;
pub mod lifecycle;
pub mod markdown;
pub mod models;
pub mod prompts;
pub mod restore;
pub mod retry;
pub mod rollback;
pub mod session;
pub mod snapshot;
pub mod text;
