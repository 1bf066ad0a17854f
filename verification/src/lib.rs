//! Editing core of a modal text editor: a line-indexed text buffer, a
//! cursor kept inside the buffer by every operation, and a mode-based
//! command interpreter that turns key and text events into buffer
//! mutations.
//!
//! The buffer's meaning lives in [`model`]: a ghost view of content, line
//! index and cursor, a well-formedness predicate tying them together, and
//! one transition function per operation.  [`buffer`] and [`movement`]
//! implement the operations and prove each one equal to its transition;
//! [`editor`] does the same for the mode machine, one spec step function
//! per event.  [`sums`], [`invariants`] and [`separators`] hold the
//! supporting lemmas, and [`laws`] states the properties that span several
//! operations: invariant preservation over arbitrary histories, round
//! trips, movement clamping and the two-key commands.  [`theme`] colors
//! the surrounding window and [`util`] holds small shared helpers.

pub mod buffer;
pub mod editor;
pub mod invariants;
pub mod laws;
pub mod model;
pub mod movement;
pub mod separators;
pub mod sums;
pub mod theme;
pub mod util;
