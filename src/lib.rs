//! Parsing of reminder lines such as `[2018-01-01 00:00 a 4thu,2wed] New Year's planning`
//! into structured rules.

pub mod api;
pub mod text;
pub mod stamp;
pub mod rule;
pub mod rule_parser;
