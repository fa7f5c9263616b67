//! Per-character Unicode attribute rows.
//!
//! A format string selects which attributes of a character are shown and in
//! which order; each character of the input then yields one line made of the
//! selected fields, padded into columns, followed by the character's name.

pub mod selector;
pub mod text;
pub mod ucd;
pub mod render;
pub mod line;
