//! What a script knows globally while it is checked: enum variant ids and custom types.
use vstd::prelude::*;
use crate::lang::type_model::{TypeModel, types_model};
use crate::lang::val_type::VType;
use crate::name_map::NameMap;

verus! {

/// The id of the built-in `Err` enum variant.
pub const EV_ERR: usize = 0;

/// Names and types shared by the whole script.
pub struct GlobalScriptInfo {
    /// Enum variant names and their ids.
    pub enum_variants: NameMap,
    /// Custom type names (lower case) and their index in `custom_types`.
    pub custom_type_names: NameMap,
    /// The definition of every custom type, by index.
    pub custom_types: Vec<VType>,
}

impl GlobalScriptInfo {
    /// The definitions of the custom types, by index.
    pub open spec fn custom(&self) -> Seq<TypeModel> {
        types_model(self.custom_types@)
    }

    /// The enum variants every script knows: `Err`, with id [`EV_ERR`].
    pub fn default_enum_variants() -> (r: NameMap)
        ensures
            r@ == seq![("Err"@, EV_ERR)],
    {
        let mut m = NameMap::new();
        m.insert(String::from_str("Err"), EV_ERR);
        proof { reveal_strlit("Err"); }
        assert(m@ =~= seq![("Err"@, EV_ERR)]);
        m
    }
}

impl Default for GlobalScriptInfo {
    /// No custom types and only the built-in enum variants.
    fn default() -> (r: Self)
        ensures
            r.enum_variants@ == seq![("Err"@, EV_ERR)],
            r.custom_type_names@.len() == 0,
            r.custom_types@.len() == 0,
    {
        GlobalScriptInfo {
            enum_variants: Self::default_enum_variants(),
            custom_type_names: NameMap::new(),
            custom_types: Vec::new(),
        }
    }
}

/// Where one kind of log message goes.
#[derive(Clone, Debug, Default)]
pub struct LogKind {
    /// Printed to standard error.
    pub stderr: bool,
    /// Kept in the log.
    pub log: bool,
}

impl LogKind {
    /// Whether messages of this kind are recorded anywhere.
    pub fn log(&self) -> (r: bool)
        ensures
            r == (self.stderr || self.log),
    {
        self.stderr || self.log
    }
}

} // verus!
