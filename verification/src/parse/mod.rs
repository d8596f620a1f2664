//! Source files and type annotations as the script parser reads them.
pub mod file;
pub mod parse;
pub mod statement;
