//! The types as the script compiler uses them.
pub mod type_model;
pub mod val_type;
pub mod fits_laws;
pub mod enum_laws;
pub mod to_runnable;
pub mod code_parsed;
