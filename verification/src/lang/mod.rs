//! The language's types and what the checker and the built-in functions do with them.
pub mod val_type;
pub mod val_data;
pub mod type_model;
pub mod global_info;
pub mod fits;
pub mod fits_laws;
pub mod enum_laws;
pub mod access;
pub mod builtins;
pub mod builtin_laws;
pub mod builtin_values;
pub mod run_builtin;
pub mod code_runnable;
pub mod code_parsed;
pub mod fmtgs;
pub mod show;
