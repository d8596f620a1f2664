//! Source files prepared for parsing.
pub mod file;
