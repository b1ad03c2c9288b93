//! Retention rules for a user's feed: which posts and reposts are old enough
//! to delete, which record each deletion addresses, and in what order a run
//! confirms and deletes them.

pub mod classify;
pub mod entry;
pub mod pipeline;
pub mod run;
pub mod time;
