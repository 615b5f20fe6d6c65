//! Source-tree metrics library: per-file line/word/char/byte counting with a
//! language classification, associative accumulation of totals and maxima,
//! grouping and sorting of results, and text renderers (table, delimited,
//! structured) built on an escape-aware width measurement.

pub mod helpers;
pub mod language;
pub mod output;
pub mod scanner;
pub mod text;
