//! The currency codec: a textual money notation and its integer meaning.

pub mod currency_formatter;
pub mod currency_parser;
pub mod notation;
