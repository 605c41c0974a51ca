//! Event identifiers for a profiling session.
//!
//! An event id names a kind of event by a label and any number of arguments.
//! Its text is the label, then each argument behind one separator character.
//! The text is stored once, in the string table of the session, and the event
//! id is the handle of that entry.
//!
//! `string_id` holds the handles, `string_table` the session with its table,
//! and `event_id` the event ids and the builder that composes them.

pub mod event_id;
pub mod grammar;
mod parts;
pub mod string_id;
pub mod string_table;

pub use event_id::{EventId, EventIdBuilder, SEPARATOR_BYTE};
pub use string_id::{StringId, FIRST_REGULAR_STRING_ID, INVALID_STRING_ID};
pub use string_table::{Profiler, StringComponent, MAX_STRINGS};
