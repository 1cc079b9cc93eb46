//! Spreadsheet formulas: parsing, evaluation against a sparse sheet with
//! implied intersection and implicit conversions, and translation to SQL.
//!
//! Numbers are IEEE-754 binary64 values held as bit patterns; the rounding
//! arithmetic and the decimal conversions are the host's (see `host`).
pub mod number;
pub mod types;
pub mod helpers;
pub mod text;
pub mod chars;
pub mod compare;
pub mod sheet;
pub mod host;
pub mod eval;
pub mod conversion;
pub mod functions;
pub mod grammar;
pub mod parser;
pub mod sql;
