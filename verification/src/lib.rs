//! Application core of a terminal tool for reviewing and toggling the
//! enabled state of service units: the categorized, filterable, navigable
//! view of the loaded services with dirty-change tracking; the change
//! engine that applies a batch of enable/disable changes step by step;
//! the categorizer; and the parsers for the service directory's captured
//! output. The process invocations and the terminal rendering around this
//! library stay outside of it.
use vstd::prelude::*;

pub mod app;
pub mod categories;
pub mod engine;
pub mod info;
pub mod listing;
pub mod services;
pub mod text;

verus! {

} // verus!
