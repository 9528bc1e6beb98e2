//! Core engine behind a filtered front page for ranked story submissions.
//!
//! The crate classifies stories against a fixed registry of content filters,
//! groups them into named, capacity-bounded pages according to
//! inclusion/exclusion modifiers, and decides which externally fetched story
//! ids are genuinely new relative to a sorted, append-only id store.

pub mod dedup;
pub mod filters;
pub mod hn;
pub mod models;
pub mod page;
pub mod seqs;
pub mod text;
