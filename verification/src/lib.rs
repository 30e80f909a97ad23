//! A small todo-list library.
//!
//! Items carry an optional priority (a single decimal digit), an optional due
//! timestamp with a UTC offset, and a text. Items are persisted one per line
//! in the bracket-delimited form `[PRIORITY]{DUE} TEXT`; the codec here
//! encodes and decodes that form, and the round trip is proved lossless.
//! A listing component sorts decoded items with an absent-last rule: items
//! lacking the requested sort key come after all items that have it, for
//! ascending and descending orders alike.

pub mod codec;
pub mod commands;
pub mod date;
pub mod digits;
pub mod item;
pub mod listing;
pub mod nldate;
pub mod sorting;
