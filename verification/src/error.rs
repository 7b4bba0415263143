//! The error taxonomy of the pipeline.
//!
//! Every stage failure aborts the run at once and carries the first
//! failure's detail; no stage retries and no partial output survives.

use vstd::prelude::*;

verus! {

/// One variant per failure a pipeline stage can report.
#[derive(Debug, PartialEq, Eq)]
pub enum PipelineError {
    /// The network request failed, or the remote answered with a
    /// non-success status (carried here when one was received).
    Transport { status: Option<u16> },
    /// The response body could not be decoded as text.
    Decode,
    /// The document could not be parsed as markup.
    Parse,
    /// A located cell's text is not a valid number: the 0-based index of the
    /// offending row among the matched rows, the configured name of the
    /// column, and the cell's text before trimming.
    ValueParse { row: usize, column: String, text: String },
    /// The destination could not be created or written.
    Io,
}

} // verus!
