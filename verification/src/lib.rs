//! Interactive state core of a terminal chat client.
//!
//! The crate tracks which UI mode the application is in, manages a scroll
//! offset over a bounded message history, and drives a selectable,
//! incrementally search-filtered list of followed channels.  Rendering,
//! input-line editing, storage and networking are left to the caller; the
//! functions here are the state transitions behind them, each with a
//! verified contract.

pub mod app;
pub mod following;
pub mod scroll;
pub mod selection;
pub mod state;
