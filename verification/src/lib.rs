//! A stream editor in the style of `sed`: a script parser and an
//! evaluation engine that turns input lines into effects.
pub mod address_range;
pub mod commands;
pub mod compiled_regex;
pub mod parser;
pub mod program;
pub mod text;
