//! Attribution lookups for editor hover queries.
//!
//! The library decides when a hover position should trigger a version-control
//! blame lookup, builds the exact command-line query for one file and one
//! line, parses the tool's porcelain output into an attribution record, and
//! renders that record as the single line of hover text. Process spawning and
//! protocol transport live outside the library and hand it plain values.

use vstd::prelude::*;

pub mod command;
pub mod hover;
pub mod lines;
pub mod numfmt;
pub mod parse;

verus! {

/// One attribution record: the abbreviated commit id, the author identifier
/// exactly as the tool printed it (angle brackets included), and the first
/// summary line.
pub struct Blame {
    pub hash: String,
    pub author: String,
    pub summary: String,
}

} // verus!
