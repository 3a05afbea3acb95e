//! A personal calendar and reminder library.
//!
//! A human-edited plain-text calendar file is parsed into typed event
//! entries, and a periodic job derives timezone-aware reminder
//! notifications from those entries, delivering each one exactly once
//! across irregularly spaced invocations by means of a persisted
//! watermark timestamp.

pub mod api;
pub mod chars;
pub mod matrix;
pub mod notifier;
pub mod notify;
pub mod parser;
pub mod render;
pub mod shared;
pub mod todo;

pub use shared::{Command, Entry, EntryModel, HourMinute, Month, RequestBody, Todo};
