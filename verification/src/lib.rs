//! Decision core of an automatic pull-request merge bot.
//!
//! The library folds review histories into per-user standing opinions,
//! decides which labels a pull request should carry and whether it is ready
//! to merge, sanitizes merge-commit messages, and drives the bounded
//! polling state machine that guards the final merge call. All network
//! traffic and clock reads happen outside; the functions here work on plain
//! snapshots.

pub mod context;
pub mod merge;
pub mod process;
pub mod review;
pub mod strutil;
