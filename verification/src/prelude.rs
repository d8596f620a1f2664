//! The types most users of the library need.
pub use crate::lang::val_type::{VSingleType, VType};
pub use crate::libs::comms::RespondableMessage;
