//! A verified core for a personal note-tracking tool.
//!
//! The library models an `Index`: a name-sorted, name-unique collection of
//! `Note` records, together with the decision logic of the commands that act
//! on it and the presentation helpers that render it.  All file-system and
//! editor interaction lives outside the library and hands it plain values.
#![verifier::loop_isolation(false)]

pub mod commands;
pub mod errors;
pub mod notes;
pub mod order;
pub mod relpath;
