//! Turns lines of delimited text into rows of a LaTeX table.
//!
//! A line is split on a delimiter, the wanted fields are picked by their
//! one-based position, each is escaped and wrapped as its output column asks,
//! and the values are joined into one row.

pub mod buffer;
pub mod builder;
pub mod config;
pub mod converter;
pub mod escape;
pub mod options;
pub mod text;
pub mod unicode;
pub mod wrap;

pub use config::ConfigError;
pub use converter::{field_encoder, field_wrapper, ColumnTransform, Converter};
pub use escape::{escape, escape_latex, escape_listing, EncodingOption};
pub use options::{finish_row, CutOptions};
pub use wrap::wrap;
