//! Types of the mers language, their byte format, and the preparation of
//! source files, with their behaviour stated as contracts and proved.
pub mod ordered_union;
pub mod name_map;
pub mod lang;
pub mod script;
pub mod libs;
pub mod text;
pub mod comments;
pub mod parsing;
pub mod parse;
pub mod lsp;
pub mod prelude;

pub use crate::lang::val_type::{VSingleType, VType};
pub use crate::libs::comms::{ByteData, ByteDataA, ByteReader, RespondableMessage};
