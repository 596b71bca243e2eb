//! Icon resolution for a package list: name variants, candidate paths in a
//! fixed priority order, and a per-process cache of answers.

pub mod names;
pub mod icon;
pub mod laws;
pub mod package;
