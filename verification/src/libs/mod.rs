//! Talking to library processes: the byte format and the message exchange.
pub mod comms;
pub mod type_bytes;
pub mod data_bytes;
pub mod run_function;
pub mod inlib;
