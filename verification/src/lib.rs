//! Selection pipeline for gait-analysis CSV exports.
//!
//! The library rewrites the tabular body of one export into a canonical
//! column schema, computes the middle-percent time window(s) of the recorded
//! gait cycles, and prepares the metadata header that carries the resulting
//! selection string.  All decisions live here; reading and writing the files
//! themselves is left to the caller.

pub mod filename;
pub mod remap;
pub mod selection;
pub mod table;
pub mod text;

use vstd::prelude::*;

verus! {

/// Errors the pipeline can decide on from the data alone.
#[derive(Debug)]
pub enum SplitError {
    /// The input filename does not have at least ten hyphen-separated tokens.
    ParseNameFailed,
    /// The version-keyed remap table is missing or unreadable; carries the
    /// path that was looked up.
    RemapNotFound(String),
    /// A column named by the remap schema is absent from the body; carries
    /// the missing name.
    SchemaMismatch(String),
    /// The remap table text is not a two-column table.
    CsvParse,
}

} // verus!
