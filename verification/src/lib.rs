//! Extraction of numeric columns from an HTML report table.
//!
//! The pipeline has three stages: a fetcher retrieves the page text (the
//! network call itself lives outside this library; `fetch` holds the status
//! decision), `extract` locates the configured table rows and converts the
//! configured cells to numeric values, and `export` serializes the collected
//! columns as comma-separated text for the caller to write out.

pub mod config;
pub mod error;
pub mod export;
pub mod extract;
pub mod fetch;
pub mod num;
pub mod text;

pub use config::ColumnSpec;
pub use config::TableQuery;
pub use error::PipelineError;
pub use export::export;
pub use extract::extract;
pub use extract::extract_rows;
pub use extract::ExtractedTable;
pub use fetch::classify_status;
pub use num::Num;
