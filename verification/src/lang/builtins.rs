//! The functions every script can call, and the types they accept and return.
use vstd::prelude::*;
use vstd::utf8::encode_utf8_decode_utf8;
use crate::lang::type_model::{SingleTypeModel, TypeModel, singles_model, types_model};
use crate::lang::val_type::{VSingleType, VType, is_reference_spec, dereference_spec, matches_spec, noenum_spec};
use crate::lang::global_info::{EV_ERR, GlobalScriptInfo};
use crate::lang::fits::{all_fit, fits_in_type_spec, type_fits};
use crate::lang::access::get_any_spec;
use crate::ordered_union::add_all;

verus! {

/// A function that is part of the language.
#[derive(Clone, Debug, PartialEq, Eq, Structural)]
pub enum BuiltinFunction {
    Assume1,
    AssumeNoEnum,
    NoEnum,
    Matches,
    Clone,
    Print,
    Println,
    Debug,
    StdinReadLine,
    ToString,
    Format,
    ParseInt,
    ParseFloat,
    Run,
    Thread,
    Await,
    Sleep,
    Exit,
    FsList,
    FsRead,
    FsWrite,
    BytesToString,
    StringToBytes,
    RunCommand,
    RunCommandGetBytes,
    Not,
    And,
    Or,
    Add,
    Sub,
    Mul,
    Div,
    Mod,
    Pow,
    Eq,
    Ne,
    Gt,
    Lt,
    Gtoe,
    Ltoe,
    Min,
    Max,
    Push,
    Insert,
    Pop,
    Remove,
    Get,
    Len,
    Contains,
    StartsWith,
    EndsWith,
    IndexOf,
    Trim,
    Substring,
    Replace,
    Regex,
}

/// The name by which a script calls `f`.
pub open spec fn builtin_name(f: BuiltinFunction) -> Seq<char> {
    match f {
        BuiltinFunction::Assume1 => "assume1"@,
        BuiltinFunction::AssumeNoEnum => "assume_no_enum"@,
        BuiltinFunction::NoEnum => "noenum"@,
        BuiltinFunction::Matches => "matches"@,
        BuiltinFunction::Clone => "clone"@,
        BuiltinFunction::Print => "print"@,
        BuiltinFunction::Println => "println"@,
        BuiltinFunction::Debug => "debug"@,
        BuiltinFunction::StdinReadLine => "read_line"@,
        BuiltinFunction::ToString => "to_string"@,
        BuiltinFunction::Format => "format"@,
        BuiltinFunction::ParseInt => "parse_int"@,
        BuiltinFunction::ParseFloat => "parse_float"@,
        BuiltinFunction::Run => "run"@,
        BuiltinFunction::Thread => "thread"@,
        BuiltinFunction::Await => "await"@,
        BuiltinFunction::Sleep => "sleep"@,
        BuiltinFunction::Exit => "exit"@,
        BuiltinFunction::FsList => "fs_list"@,
        BuiltinFunction::FsRead => "fs_read"@,
        BuiltinFunction::FsWrite => "fs_write"@,
        BuiltinFunction::BytesToString => "bytes_to_string"@,
        BuiltinFunction::StringToBytes => "string_to_bytes"@,
        BuiltinFunction::RunCommand => "run_command"@,
        BuiltinFunction::RunCommandGetBytes => "run_command_get_bytes"@,
        BuiltinFunction::Not => "not"@,
        BuiltinFunction::And => "and"@,
        BuiltinFunction::Or => "or"@,
        BuiltinFunction::Add => "add"@,
        BuiltinFunction::Sub => "sub"@,
        BuiltinFunction::Mul => "mul"@,
        BuiltinFunction::Div => "div"@,
        BuiltinFunction::Mod => "mod"@,
        BuiltinFunction::Pow => "pow"@,
        BuiltinFunction::Eq => "eq"@,
        BuiltinFunction::Ne => "ne"@,
        BuiltinFunction::Gt => "gt"@,
        BuiltinFunction::Lt => "lt"@,
        BuiltinFunction::Gtoe => "gtoe"@,
        BuiltinFunction::Ltoe => "ltoe"@,
        BuiltinFunction::Min => "min"@,
        BuiltinFunction::Max => "max"@,
        BuiltinFunction::Push => "push"@,
        BuiltinFunction::Insert => "insert"@,
        BuiltinFunction::Pop => "pop"@,
        BuiltinFunction::Remove => "remove"@,
        BuiltinFunction::Get => "get"@,
        BuiltinFunction::Len => "len"@,
        BuiltinFunction::Contains => "contains"@,
        BuiltinFunction::StartsWith => "starts_with"@,
        BuiltinFunction::EndsWith => "ends_with"@,
        BuiltinFunction::IndexOf => "index_of"@,
        BuiltinFunction::Trim => "trim"@,
        BuiltinFunction::Substring => "substring"@,
        BuiltinFunction::Replace => "replace"@,
        BuiltinFunction::Regex => "regex"@,
    }
}

/// Whether two strings hold the same characters.
pub fn str_eq(a: &str, b: &str) -> (r: bool)
    ensures
        r == (a@ == b@),
{
    let x = a.as_bytes();
    let y = b.as_bytes();
    proof {
        encode_utf8_decode_utf8(a@);
        encode_utf8_decode_utf8(b@);
    }
    if x.len() != y.len() {
        assert(a@ != b@) by {
            if a@ == b@ {
                assert(x@ == y@);
            }
        }
        return false;
    }
    let mut i: usize = 0;
    while i < x.len()
        invariant
            x@ == vstd::utf8::encode_utf8(a@),
            y@ == vstd::utf8::encode_utf8(b@),
            x@.len() == y@.len(),
            i <= x@.len(),
            forall|j: int| 0 <= j < i ==> x@[j] == y@[j],
        decreases x@.len() - i,
    {
        if x[i] != y[i] {
            assert(a@ != b@) by {
                if a@ == b@ {
                    assert(x@ == y@);
                }
            }
            return false;
        }
        i += 1;
    }
    assert(x@ =~= y@);
    true
}

impl BuiltinFunction {
    /// The function a script calls by `s`, or `None` when no function has that name.
    pub fn get(s: &str) -> (r: Option<Self>)
        ensures
            r matches Some(f) ==> builtin_name(f) == s@,
            r is None <==> forall|f: BuiltinFunction| builtin_name(f) != s@,
    {
        if str_eq(s, "assume1") {
            assert(builtin_name(BuiltinFunction::Assume1) == s@);
            return Some(BuiltinFunction::Assume1);
        }
        if str_eq(s, "assume_no_enum") {
            assert(builtin_name(BuiltinFunction::AssumeNoEnum) == s@);
            return Some(BuiltinFunction::AssumeNoEnum);
        }
        if str_eq(s, "noenum") {
            assert(builtin_name(BuiltinFunction::NoEnum) == s@);
            return Some(BuiltinFunction::NoEnum);
        }
        if str_eq(s, "matches") {
            assert(builtin_name(BuiltinFunction::Matches) == s@);
            return Some(BuiltinFunction::Matches);
        }
        if str_eq(s, "clone") {
            assert(builtin_name(BuiltinFunction::Clone) == s@);
            return Some(BuiltinFunction::Clone);
        }
        if str_eq(s, "print") {
            assert(builtin_name(BuiltinFunction::Print) == s@);
            return Some(BuiltinFunction::Print);
        }
        if str_eq(s, "println") {
            assert(builtin_name(BuiltinFunction::Println) == s@);
            return Some(BuiltinFunction::Println);
        }
        if str_eq(s, "debug") {
            assert(builtin_name(BuiltinFunction::Debug) == s@);
            return Some(BuiltinFunction::Debug);
        }
        if str_eq(s, "read_line") {
            assert(builtin_name(BuiltinFunction::StdinReadLine) == s@);
            return Some(BuiltinFunction::StdinReadLine);
        }
        if str_eq(s, "to_string") {
            assert(builtin_name(BuiltinFunction::ToString) == s@);
            return Some(BuiltinFunction::ToString);
        }
        if str_eq(s, "format") {
            assert(builtin_name(BuiltinFunction::Format) == s@);
            return Some(BuiltinFunction::Format);
        }
        if str_eq(s, "parse_int") {
            assert(builtin_name(BuiltinFunction::ParseInt) == s@);
            return Some(BuiltinFunction::ParseInt);
        }
        if str_eq(s, "parse_float") {
            assert(builtin_name(BuiltinFunction::ParseFloat) == s@);
            return Some(BuiltinFunction::ParseFloat);
        }
        if str_eq(s, "run") {
            assert(builtin_name(BuiltinFunction::Run) == s@);
            return Some(BuiltinFunction::Run);
        }
        if str_eq(s, "thread") {
            assert(builtin_name(BuiltinFunction::Thread) == s@);
            return Some(BuiltinFunction::Thread);
        }
        if str_eq(s, "await") {
            assert(builtin_name(BuiltinFunction::Await) == s@);
            return Some(BuiltinFunction::Await);
        }
        if str_eq(s, "sleep") {
            assert(builtin_name(BuiltinFunction::Sleep) == s@);
            return Some(BuiltinFunction::Sleep);
        }
        if str_eq(s, "exit") {
            assert(builtin_name(BuiltinFunction::Exit) == s@);
            return Some(BuiltinFunction::Exit);
        }
        if str_eq(s, "fs_list") {
            assert(builtin_name(BuiltinFunction::FsList) == s@);
            return Some(BuiltinFunction::FsList);
        }
        if str_eq(s, "fs_read") {
            assert(builtin_name(BuiltinFunction::FsRead) == s@);
            return Some(BuiltinFunction::FsRead);
        }
        if str_eq(s, "fs_write") {
            assert(builtin_name(BuiltinFunction::FsWrite) == s@);
            return Some(BuiltinFunction::FsWrite);
        }
        if str_eq(s, "bytes_to_string") {
            assert(builtin_name(BuiltinFunction::BytesToString) == s@);
            return Some(BuiltinFunction::BytesToString);
        }
        if str_eq(s, "string_to_bytes") {
            assert(builtin_name(BuiltinFunction::StringToBytes) == s@);
            return Some(BuiltinFunction::StringToBytes);
        }
        if str_eq(s, "run_command") {
            assert(builtin_name(BuiltinFunction::RunCommand) == s@);
            return Some(BuiltinFunction::RunCommand);
        }
        if str_eq(s, "run_command_get_bytes") {
            assert(builtin_name(BuiltinFunction::RunCommandGetBytes) == s@);
            return Some(BuiltinFunction::RunCommandGetBytes);
        }
        if str_eq(s, "not") {
            assert(builtin_name(BuiltinFunction::Not) == s@);
            return Some(BuiltinFunction::Not);
        }
        if str_eq(s, "and") {
            assert(builtin_name(BuiltinFunction::And) == s@);
            return Some(BuiltinFunction::And);
        }
        if str_eq(s, "or") {
            assert(builtin_name(BuiltinFunction::Or) == s@);
            return Some(BuiltinFunction::Or);
        }
        if str_eq(s, "add") {
            assert(builtin_name(BuiltinFunction::Add) == s@);
            return Some(BuiltinFunction::Add);
        }
        if str_eq(s, "sub") {
            assert(builtin_name(BuiltinFunction::Sub) == s@);
            return Some(BuiltinFunction::Sub);
        }
        if str_eq(s, "mul") {
            assert(builtin_name(BuiltinFunction::Mul) == s@);
            return Some(BuiltinFunction::Mul);
        }
        if str_eq(s, "div") {
            assert(builtin_name(BuiltinFunction::Div) == s@);
            return Some(BuiltinFunction::Div);
        }
        if str_eq(s, "mod") {
            assert(builtin_name(BuiltinFunction::Mod) == s@);
            return Some(BuiltinFunction::Mod);
        }
        if str_eq(s, "pow") {
            assert(builtin_name(BuiltinFunction::Pow) == s@);
            return Some(BuiltinFunction::Pow);
        }
        if str_eq(s, "eq") {
            assert(builtin_name(BuiltinFunction::Eq) == s@);
            return Some(BuiltinFunction::Eq);
        }
        if str_eq(s, "ne") {
            assert(builtin_name(BuiltinFunction::Ne) == s@);
            return Some(BuiltinFunction::Ne);
        }
        if str_eq(s, "lt") {
            assert(builtin_name(BuiltinFunction::Lt) == s@);
            return Some(BuiltinFunction::Lt);
        }
        if str_eq(s, "gt") {
            assert(builtin_name(BuiltinFunction::Gt) == s@);
            return Some(BuiltinFunction::Gt);
        }
        if str_eq(s, "ltoe") {
            assert(builtin_name(BuiltinFunction::Ltoe) == s@);
            return Some(BuiltinFunction::Ltoe);
        }
        if str_eq(s, "gtoe") {
            assert(builtin_name(BuiltinFunction::Gtoe) == s@);
            return Some(BuiltinFunction::Gtoe);
        }
        if str_eq(s, "min") {
            assert(builtin_name(BuiltinFunction::Min) == s@);
            return Some(BuiltinFunction::Min);
        }
        if str_eq(s, "max") {
            assert(builtin_name(BuiltinFunction::Max) == s@);
            return Some(BuiltinFunction::Max);
        }
        if str_eq(s, "push") {
            assert(builtin_name(BuiltinFunction::Push) == s@);
            return Some(BuiltinFunction::Push);
        }
        if str_eq(s, "insert") {
            assert(builtin_name(BuiltinFunction::Insert) == s@);
            return Some(BuiltinFunction::Insert);
        }
        if str_eq(s, "pop") {
            assert(builtin_name(BuiltinFunction::Pop) == s@);
            return Some(BuiltinFunction::Pop);
        }
        if str_eq(s, "remove") {
            assert(builtin_name(BuiltinFunction::Remove) == s@);
            return Some(BuiltinFunction::Remove);
        }
        if str_eq(s, "get") {
            assert(builtin_name(BuiltinFunction::Get) == s@);
            return Some(BuiltinFunction::Get);
        }
        if str_eq(s, "len") {
            assert(builtin_name(BuiltinFunction::Len) == s@);
            return Some(BuiltinFunction::Len);
        }
        if str_eq(s, "contains") {
            assert(builtin_name(BuiltinFunction::Contains) == s@);
            return Some(BuiltinFunction::Contains);
        }
        if str_eq(s, "starts_with") {
            assert(builtin_name(BuiltinFunction::StartsWith) == s@);
            return Some(BuiltinFunction::StartsWith);
        }
        if str_eq(s, "ends_with") {
            assert(builtin_name(BuiltinFunction::EndsWith) == s@);
            return Some(BuiltinFunction::EndsWith);
        }
        if str_eq(s, "index_of") {
            assert(builtin_name(BuiltinFunction::IndexOf) == s@);
            return Some(BuiltinFunction::IndexOf);
        }
        if str_eq(s, "trim") {
            assert(builtin_name(BuiltinFunction::Trim) == s@);
            return Some(BuiltinFunction::Trim);
        }
        if str_eq(s, "substring") {
            assert(builtin_name(BuiltinFunction::Substring) == s@);
            return Some(BuiltinFunction::Substring);
        }
        if str_eq(s, "replace") {
            assert(builtin_name(BuiltinFunction::Replace) == s@);
            return Some(BuiltinFunction::Replace);
        }
        if str_eq(s, "regex") {
            assert(builtin_name(BuiltinFunction::Regex) == s@);
            return Some(BuiltinFunction::Regex);
        }
        assert forall|f: BuiltinFunction| builtin_name(f) != s@ by {}
        None
    }
}

broadcast use crate::lang::type_model::group_model_lemmas;

/// `a && b` where either side may not finish: `b` only matters when `a` is `Some(true)`.
pub open spec fn and_then_opt(a: Option<bool>, b: Option<bool>) -> Option<bool> {
    match a {
        Some(true) => b,
        _ => a,
    }
}

/// `a || b` where either side may not finish: `b` only matters when `a` is `Some(false)`.
pub open spec fn or_else_opt(a: Option<bool>, b: Option<bool>) -> Option<bool> {
    match a {
        Some(false) => b,
        _ => a,
    }
}

pub open spec fn t_string() -> Seq<SingleTypeModel> {
    seq![SingleTypeModel::String]
}

pub open spec fn t_int() -> Seq<SingleTypeModel> {
    seq![SingleTypeModel::Int]
}

pub open spec fn t_bool() -> Seq<SingleTypeModel> {
    seq![SingleTypeModel::Bool]
}

/// A number: `int` or `float`.
pub open spec fn t_num() -> Seq<SingleTypeModel> {
    seq![SingleTypeModel::Int, SingleTypeModel::Float]
}

/// A list whose elements have the alternatives `x`.
pub open spec fn t_list(x: Seq<SingleTypeModel>) -> Seq<SingleTypeModel> {
    seq![SingleTypeModel::List(TypeModel { types: x })]
}

/// A string or a reference to a string.
pub open spec fn t_string_or_ref() -> Seq<SingleTypeModel> {
    seq![SingleTypeModel::String, SingleTypeModel::Reference(Box::new(SingleTypeModel::String))]
}

/// Whether every value of type `t` is accepted where `rhs` is expected.
pub open spec fn fits_all(ct: Seq<TypeModel>, t: TypeModel, rhs: Seq<SingleTypeModel>) -> Option<bool> {
    all_fit(type_fits(ct, t.types, rhs))
}

/// Whether every input fits in `rhs`, checked from the left.
pub open spec fn all_inputs_fit(ct: Seq<TypeModel>, ins: Seq<TypeModel>, rhs: Seq<SingleTypeModel>) -> Option<bool>
    decreases ins.len(),
{
    if ins.len() == 0 {
        Some(true)
    } else {
        and_then_opt(fits_all(ct, ins[0], rhs), all_inputs_fit(ct, ins.drop_first(), rhs))
    }
}

/// The optional second argument of the `assume` functions: a reason, which must be a string.
pub open spec fn assume_tail(ct: Seq<TypeModel>, ins: Seq<TypeModel>) -> Option<bool> {
    if ins.len() >= 2 {
        if ins.len() == 2 {
            fits_all(ct, ins[1], t_string())
        } else {
            Some(false)
        }
    } else {
        Some(true)
    }
}

/// A tuple of two or more values is among the alternatives of `t`.
pub open spec fn has_long_tuple(t: TypeModel) -> bool {
    exists|j: int| 0 <= j < t.types.len() && (#[trigger] t.types[j] matches SingleTypeModel::Tuple(v) && v.len() >= 2)
}

/// `t` is a function type each of whose variants takes `n` arguments.
pub open spec fn takes_args(t: SingleTypeModel, n: int) -> bool {
    match t {
        SingleTypeModel::Function(v) => forall|k: int| 0 <= k < v.len() ==> (#[trigger] v[k]).0.len() == n,
        _ => false,
    }
}

/// Every alternative of `t` is a function, each of whose variants takes `n` arguments.
pub open spec fn all_functions_take(t: TypeModel, n: int) -> bool {
    forall|j: int| 0 <= j < t.types.len() ==> takes_args(#[trigger] t.types[j], n)
}

/// Every alternative of `t` is a thread.
pub open spec fn all_threads(t: TypeModel) -> bool {
    forall|j: int| 0 <= j < t.types.len() ==> (#[trigger] t.types[j]) is Thread
}

/// `vec` is a reference to something with elements, and `el` fits in their type.
pub open spec fn elem_fits(ct: Seq<TypeModel>, vec: TypeModel, el: TypeModel) -> Option<bool> {
    if is_reference_spec(vec.types) == Some(true) {
        match get_any_spec(ct, vec.types) {
            None => None,
            Some(None) => Some(false),
            Some(Some(t)) => fits_all(ct, el, t),
        }
    } else {
        Some(false)
    }
}

/// `vec` is a reference to something with elements.
pub open spec fn has_elems(ct: Seq<TypeModel>, vec: TypeModel) -> Option<bool> {
    if is_reference_spec(vec.types) == Some(true) {
        match get_any_spec(ct, vec.types) {
            None => None,
            Some(None) => Some(false),
            Some(Some(_)) => Some(true),
        }
    } else {
        Some(false)
    }
}

/// Whether builtin `f` accepts arguments of the types `ins`; `None` where
/// the check on these types does not finish.
pub open spec fn can_take_spec(f: BuiltinFunction, ins: Seq<TypeModel>, ct: Seq<TypeModel>) -> Option<bool> {
    let n = ins.len();
    match f {
        BuiltinFunction::Assume1 => if n >= 1 {
            if has_long_tuple(ins[0]) {
                Some(false)
            } else {
                assume_tail(ct, ins)
            }
        } else {
            Some(false)
        },
        BuiltinFunction::AssumeNoEnum => if n >= 1 {
            assume_tail(ct, ins)
        } else {
            Some(false)
        },
        BuiltinFunction::NoEnum | BuiltinFunction::Matches => Some(n == 1),
        BuiltinFunction::Clone => Some(n == 1 && is_reference_spec(ins[0].types) == Some(true)),
        BuiltinFunction::Print | BuiltinFunction::Println | BuiltinFunction::ParseInt | BuiltinFunction::ParseFloat
        | BuiltinFunction::FsRead | BuiltinFunction::StringToBytes | BuiltinFunction::Trim => if n == 1 {
            fits_all(ct, ins[0], t_string())
        } else {
            Some(false)
        },
        BuiltinFunction::Debug | BuiltinFunction::ToString | BuiltinFunction::FsList
        | BuiltinFunction::Get | BuiltinFunction::Len => Some(true),
        BuiltinFunction::Format => if n == 0 {
            Some(false)
        } else {
            all_inputs_fit(ct, ins, t_string())
        },
        BuiltinFunction::StdinReadLine => Some(n == 0),
        BuiltinFunction::Run | BuiltinFunction::Thread => Some(n >= 1 && all_functions_take(ins[0], n - 1)),
        BuiltinFunction::Await => Some(n == 1 && all_threads(ins[0])),
        BuiltinFunction::Sleep => if n == 1 {
            fits_all(ct, ins[0], t_num())
        } else {
            Some(false)
        },
        BuiltinFunction::Exit => if n == 0 {
            Some(true)
        } else if n == 1 {
            fits_all(ct, ins[0], t_int())
        } else {
            Some(false)
        },
        BuiltinFunction::FsWrite => if n == 2 {
            and_then_opt(fits_all(ct, ins[0], t_string()), fits_all(ct, ins[1], t_list(t_int())))
        } else {
            Some(false)
        },
        BuiltinFunction::BytesToString => if n == 1 {
            fits_all(ct, ins[0], t_list(t_int()))
        } else {
            Some(false)
        },
        BuiltinFunction::RunCommand | BuiltinFunction::RunCommandGetBytes => if n >= 1 {
            match fits_all(ct, ins[0], t_string()) {
                Some(true) => if n == 1 {
                    Some(true)
                } else if n == 2 {
                    fits_all(ct, ins[1], t_list(t_string()))
                } else {
                    Some(false)
                },
                other => other,
            }
        } else {
            Some(false)
        },
        BuiltinFunction::Eq | BuiltinFunction::Ne => Some(n == 2),
        BuiltinFunction::Add => if n == 2 {
            or_else_opt(
                and_then_opt(fits_all(ct, ins[0], t_num()), fits_all(ct, ins[1], t_num())),
                and_then_opt(fits_all(ct, ins[0], t_string()), fits_all(ct, ins[1], t_string())),
            )
        } else {
            Some(false)
        },
        BuiltinFunction::Not => if n == 1 {
            fits_all(ct, ins[0], t_bool())
        } else {
            Some(false)
        },
        BuiltinFunction::And | BuiltinFunction::Or => if n == 2 {
            all_inputs_fit(ct, ins, t_bool())
        } else {
            Some(false)
        },
        BuiltinFunction::Sub | BuiltinFunction::Mul | BuiltinFunction::Div | BuiltinFunction::Mod
        | BuiltinFunction::Pow | BuiltinFunction::Gt | BuiltinFunction::Lt | BuiltinFunction::Gtoe
        | BuiltinFunction::Ltoe | BuiltinFunction::Min | BuiltinFunction::Max => if n == 2 {
            and_then_opt(fits_all(ct, ins[0], t_num()), fits_all(ct, ins[1], t_num()))
        } else {
            Some(false)
        },
        BuiltinFunction::Push => if n == 2 {
            elem_fits(ct, ins[0], ins[1])
        } else {
            Some(false)
        },
        BuiltinFunction::Insert => if n == 3 {
            elem_fits(ct, ins[0], ins[1])
        } else {
            Some(false)
        },
        BuiltinFunction::Pop => if n == 1 {
            has_elems(ct, ins[0])
        } else {
            Some(false)
        },
        BuiltinFunction::Remove => if n == 2 {
            and_then_opt(has_elems(ct, ins[0]), fits_all(ct, ins[1], t_int()))
        } else {
            Some(false)
        },
        BuiltinFunction::Substring => if 2 <= n <= 3 {
            match and_then_opt(fits_all(ct, ins[0], t_string()), fits_all(ct, ins[1], t_int())) {
                Some(true) => if n == 3 {
                    fits_all(ct, ins[2], t_int())
                } else {
                    Some(true)
                },
                other => other,
            }
        } else {
            Some(false)
        },
        BuiltinFunction::Contains | BuiltinFunction::StartsWith | BuiltinFunction::EndsWith
        | BuiltinFunction::Regex => if n == 2 {
            all_inputs_fit(ct, ins, t_string())
        } else {
            Some(false)
        },
        BuiltinFunction::IndexOf => if n == 2 {
            all_inputs_fit(ct, ins, t_string_or_ref())
        } else {
            Some(false)
        },
        BuiltinFunction::Replace => if n == 3 {
            all_inputs_fit(ct, ins, t_string())
        } else {
            Some(false)
        },
    }
}

fn string_type() -> (r: VType)
    ensures
        r.model().types == t_string(),
{
    VSingleType::String.to()
}

fn int_type() -> (r: VType)
    ensures
        r.model().types == t_int(),
{
    VSingleType::Int.to()
}

fn bool_type() -> (r: VType)
    ensures
        r.model().types == t_bool(),
{
    VSingleType::Bool.to()
}

fn num_type() -> (r: VType)
    ensures
        r.model().types == t_num(),
{
    let r = VType { types: vec![VSingleType::Int, VSingleType::Float] };
    assert(r.model().types == singles_model(r.types@));
    assert(r.model().types[0] == r.types@[0].model());
    assert(r.model().types[1] == r.types@[1].model());
    assert(r.model().types =~= t_num());
    r
}

fn list_type(x: VType) -> (r: VType)
    ensures
        r.model().types == t_list(x.model().types),
{
    VSingleType::List(x).to()
}

fn string_or_ref_type() -> (r: VType)
    ensures
        r.model().types == t_string_or_ref(),
{
    let r = VType { types: vec![VSingleType::String, VSingleType::Reference(Box::new(VSingleType::String))] };
    assert(r.model().types == singles_model(r.types@));
    assert(r.model().types[0] == r.types@[0].model());
    assert(r.model().types[1] == r.types@[1].model());
    assert(r.model().types =~= t_string_or_ref());
    r
}

fn fits_all_x(t: &VType, rhs: &VType, info: &GlobalScriptInfo) -> (r: bool)
    requires
        fits_all(info.custom(), t.model(), rhs.model().types) is Some,
    ensures
        Some(r) == fits_all(info.custom(), t.model(), rhs.model().types),
{
    t.fits_in(rhs, info).len() == 0
}

fn all_inputs_fit_x(input: &Vec<VType>, rhs: &VType, info: &GlobalScriptInfo) -> (r: bool)
    requires
        all_inputs_fit(info.custom(), types_model(input@), rhs.model().types) is Some,
    ensures
        Some(r) == all_inputs_fit(info.custom(), types_model(input@), rhs.model().types),
{
    let ghost ins = types_model(input@);
    let ghost rm = rhs.model().types;
    let mut i: usize = 0;
    assert(ins.skip(0) =~= ins);
    while i < input.len()
        invariant
            ins == types_model(input@),
            ins.len() == input@.len(),
            rm == rhs.model().types,
            i <= input@.len(),
            all_inputs_fit(info.custom(), ins, rm) is Some,
            all_inputs_fit(info.custom(), ins.skip(i as int), rm) == all_inputs_fit(info.custom(), ins, rm),
        decreases input@.len() - i,
    {
        proof {
            assert(ins.skip(i as int)[0] == ins[i as int]);
            assert(ins.skip(i as int).drop_first() =~= ins.skip(i + 1));
            assert(ins[i as int] == input@[i as int].model());
        }
        if !fits_all_x(&input[i], rhs, info) {
            return false;
        }
        i += 1;
    }
    assert(ins.skip(i as int).len() == 0);
    true
}

fn elem_fits_x(vec: &VType, el: &VType, info: &GlobalScriptInfo) -> (r: bool)
    requires
        elem_fits(info.custom(), vec.model(), el.model()) is Some,
    ensures
        Some(r) == elem_fits(info.custom(), vec.model(), el.model()),
{
    if let Some(true) = vec.is_reference() {
        if let Some(t) = vec.get_any(info) {
            fits_all_x(el, &t, info)
        } else {
            false
        }
    } else {
        false
    }
}

fn has_elems_x(vec: &VType, info: &GlobalScriptInfo) -> (r: bool)
    requires
        has_elems(info.custom(), vec.model()) is Some,
    ensures
        Some(r) == has_elems(info.custom(), vec.model()),
{
    if let Some(true) = vec.is_reference() {
        if let Some(_) = vec.get_any(info) {
            true
        } else {
            false
        }
    } else {
        false
    }
}

fn has_long_tuple_x(t: &VType) -> (r: bool)
    ensures
        r == has_long_tuple(t.model()),
{
    let ghost s = t.model().types;
    assert(s == singles_model(t.types@));
    let mut i: usize = 0;
    while i < t.types.len()
        invariant
            s == singles_model(t.types@),
            s == t.model().types,
            s.len() == t.types@.len(),
            i <= t.types@.len(),
            forall|j: int| 0 <= j < i ==> !(#[trigger] s[j] matches SingleTypeModel::Tuple(v) && v.len() >= 2),
        decreases t.types@.len() - i,
    {
        assert(s[i as int] == t.types@[i as int].model());
        match &t.types[i] {
            VSingleType::Tuple(v) => {
                assert(s[i as int] == SingleTypeModel::Tuple(types_model(v@)));
                assert(types_model(v@).len() == v@.len());
                if v.len() >= 2 {
                    assert(s[i as int] matches SingleTypeModel::Tuple(w) && w.len() >= 2);
                    return true;
                }
            },
            _ => {},
        }
        i += 1;
    }
    false
}

fn all_functions_take_x(t: &VType, n: usize) -> (r: bool)
    ensures
        r == all_functions_take(t.model(), n as int),
{
    let ghost s = t.model().types;
    assert(s == singles_model(t.types@));
    let mut i: usize = 0;
    while i < t.types.len()
        invariant
            s == singles_model(t.types@),
            s == t.model().types,
            s.len() == t.types@.len(),
            i <= t.types@.len(),
            forall|j: int| 0 <= j < i ==> takes_args(#[trigger] s[j], n as int),
        decreases t.types@.len() - i,
    {
        assert(s[i as int] == t.types@[i as int].model());
        match &t.types[i] {
            VSingleType::Function(v) => {
                let ghost vm = crate::lang::type_model::fns_model(v@);
                assert(s[i as int] == SingleTypeModel::Function(vm));
                let mut k: usize = 0;
                while k < v.len()
                    invariant
                        i < s.len(),
                        s == t.model().types,
                        s[i as int] == SingleTypeModel::Function(vm),
                        vm == crate::lang::type_model::fns_model(v@),
                        vm.len() == v@.len(),
                        k <= v@.len(),
                        forall|q: int| 0 <= q < k ==> (#[trigger] vm[q]).0.len() == n,
                    decreases v@.len() - k,
                {
                    assert(vm[k as int].0 == singles_model(v@[k as int].0@));
                    if v[k].0.len() != n {
                        assert(vm[k as int].0.len() != n);
                        proof {
                            if takes_args(s[i as int], n as int) {
                                assert(s[i as int] == SingleTypeModel::Function(vm));
                                assert(SingleTypeModel::Function(vm)->Function_0 == vm);
                                assert(vm[k as int].0.len() == n);
                            }
                        }
                        return false;
                    }
                    k += 1;
                }
            },
            _ => {
                assert(!takes_args(s[i as int], n as int));
                return false;
            },
        }
        i += 1;
    }
    true
}

fn all_threads_x(t: &VType) -> (r: bool)
    ensures
        r == all_threads(t.model()),
{
    let ghost s = t.model().types;
    assert(s == singles_model(t.types@));
    let mut i: usize = 0;
    while i < t.types.len()
        invariant
            s == singles_model(t.types@),
            s == t.model().types,
            s.len() == t.types@.len(),
            i <= t.types@.len(),
            forall|j: int| 0 <= j < i ==> (#[trigger] s[j]) is Thread,
        decreases t.types@.len() - i,
    {
        assert(s[i as int] == t.types@[i as int].model());
        match &t.types[i] {
            VSingleType::Thread(_) => {},
            _ => {
                return false;
            },
        }
        i += 1;
    }
    true
}

impl BuiltinFunction {
    /// Whether this function accepts arguments of the types `input`.
    #[verifier::rlimit(60)]
    pub fn can_take(&self, input: &Vec<VType>, info: &GlobalScriptInfo) -> (r: bool)
        requires
            can_take_spec(*self, types_model(input@), info.custom()) is Some,
        ensures
            Some(r) == can_take_spec(*self, types_model(input@), info.custom()),
    {
        let ghost ins = types_model(input@);
        let n = input.len();
        proof {
            if n >= 1 { assert(ins[0] == input@[0].model()); }
            if n >= 2 { assert(ins[1] == input@[1].model()); }
            if n >= 3 { assert(ins[2] == input@[2].model()); }
        }
        match self {
            BuiltinFunction::Assume1 => {
                if n >= 1 {
                    if has_long_tuple_x(&input[0]) {
                        false
                    } else if n >= 2 {
                        if n == 2 {
                            fits_all_x(&input[1], &string_type(), info)
                        } else {
                            false
                        }
                    } else {
                        true
                    }
                } else {
                    false
                }
            },
            BuiltinFunction::AssumeNoEnum => {
                if n >= 1 {
                    if n >= 2 {
                        if n == 2 {
                            fits_all_x(&input[1], &string_type(), info)
                        } else {
                            false
                        }
                    } else {
                        true
                    }
                } else {
                    false
                }
            },
            BuiltinFunction::NoEnum | BuiltinFunction::Matches => n == 1,
            BuiltinFunction::Clone => n == 1 && matches!(input[0].is_reference(), Some(true)),
            BuiltinFunction::Print | BuiltinFunction::Println | BuiltinFunction::ParseInt | BuiltinFunction::ParseFloat
            | BuiltinFunction::FsRead | BuiltinFunction::StringToBytes | BuiltinFunction::Trim => {
                n == 1 && fits_all_x(&input[0], &string_type(), info)
            },
            BuiltinFunction::Debug | BuiltinFunction::ToString | BuiltinFunction::FsList
            | BuiltinFunction::Get | BuiltinFunction::Len => true,
            BuiltinFunction::Format => n != 0 && all_inputs_fit_x(input, &string_type(), info),
            BuiltinFunction::StdinReadLine => n == 0,
            BuiltinFunction::Run | BuiltinFunction::Thread => n >= 1 && all_functions_take_x(&input[0], n - 1),
            BuiltinFunction::Await => n == 1 && all_threads_x(&input[0]),
            BuiltinFunction::Sleep => n == 1 && fits_all_x(&input[0], &num_type(), info),
            BuiltinFunction::Exit => n == 0 || (n == 1 && fits_all_x(&input[0], &int_type(), info)),
            BuiltinFunction::FsWrite => {
                n == 2 && fits_all_x(&input[0], &string_type(), info)
                    && fits_all_x(&input[1], &list_type(int_type()), info)
            },
            BuiltinFunction::BytesToString => n == 1 && fits_all_x(&input[0], &list_type(int_type()), info),
            BuiltinFunction::RunCommand | BuiltinFunction::RunCommandGetBytes => {
                if n >= 1 && fits_all_x(&input[0], &string_type(), info) {
                    if n == 1 {
                        true
                    } else if n == 2 {
                        fits_all_x(&input[1], &list_type(string_type()), info)
                    } else {
                        false
                    }
                } else {
                    false
                }
            },
            BuiltinFunction::Eq | BuiltinFunction::Ne => n == 2,
            BuiltinFunction::Add => {
                n == 2 && ((fits_all_x(&input[0], &num_type(), info) && fits_all_x(&input[1], &num_type(), info))
                    || (fits_all_x(&input[0], &string_type(), info) && fits_all_x(&input[1], &string_type(), info)))
            },
            BuiltinFunction::Not => n == 1 && fits_all_x(&input[0], &bool_type(), info),
            BuiltinFunction::And | BuiltinFunction::Or => n == 2 && all_inputs_fit_x(input, &bool_type(), info),
            BuiltinFunction::Sub | BuiltinFunction::Mul | BuiltinFunction::Div | BuiltinFunction::Mod
            | BuiltinFunction::Pow | BuiltinFunction::Gt | BuiltinFunction::Lt | BuiltinFunction::Gtoe
            | BuiltinFunction::Ltoe | BuiltinFunction::Min | BuiltinFunction::Max => {
                n == 2 && fits_all_x(&input[0], &num_type(), info) && fits_all_x(&input[1], &num_type(), info)
            },
            BuiltinFunction::Push => n == 2 && elem_fits_x(&input[0], &input[1], info),
            BuiltinFunction::Insert => n == 3 && elem_fits_x(&input[0], &input[1], info),
            BuiltinFunction::Pop => n == 1 && has_elems_x(&input[0], info),
            BuiltinFunction::Remove => {
                n == 2 && has_elems_x(&input[0], info) && fits_all_x(&input[1], &int_type(), info)
            },
            BuiltinFunction::Substring => {
                if n >= 2 && n <= 3 {
                    if fits_all_x(&input[0], &string_type(), info) && fits_all_x(&input[1], &int_type(), info) {
                        if n == 3 {
                            fits_all_x(&input[2], &int_type(), info)
                        } else {
                            true
                        }
                    } else {
                        false
                    }
                } else {
                    false
                }
            },
            BuiltinFunction::Contains | BuiltinFunction::StartsWith | BuiltinFunction::EndsWith
            | BuiltinFunction::Regex => n == 2 && all_inputs_fit_x(input, &string_type(), info),
            BuiltinFunction::IndexOf => n == 2 && all_inputs_fit_x(input, &string_or_ref_type(), info),
            BuiltinFunction::Replace => n == 3 && all_inputs_fit_x(input, &string_type(), info),
        }
    }
}

/// The type with the single alternative `t`.
pub open spec fn one(t: SingleTypeModel) -> TypeModel {
    TypeModel { types: seq![t] }
}

/// The empty tuple.
pub open spec fn unit() -> SingleTypeModel {
    SingleTypeModel::Tuple(Seq::empty())
}

/// The `Err` enum variant holding a string.
pub open spec fn err_string() -> SingleTypeModel {
    SingleTypeModel::EnumVariant(EV_ERR, one(SingleTypeModel::String))
}

/// `[]` or a one-value tuple holding a value with the alternatives `t`.
pub open spec fn maybe(t: Seq<SingleTypeModel>) -> Seq<SingleTypeModel> {
    seq![unit(), SingleTypeModel::Tuple(seq![TypeModel { types: t }])]
}

/// What `assume1` makes of one alternative: the value of a one-value tuple,
/// nothing for the empty tuple, and any other type itself.
pub open spec fn assume1_part(t: SingleTypeModel) -> Seq<SingleTypeModel> {
    match t {
        SingleTypeModel::Tuple(v) => if v.len() > 0 {
            v[0].types
        } else {
            Seq::empty()
        },
        _ => seq![t],
    }
}

pub open spec fn assume1_spec(s: Seq<SingleTypeModel>) -> Seq<SingleTypeModel>
    decreases s.len(),
{
    if s.len() == 0 {
        Seq::empty()
    } else {
        add_all(assume1_spec(s.drop_last()), assume1_part(s.last()))
    }
}

/// What `assume_no_enum` makes of one alternative: nothing for an enum variant.
pub open spec fn no_enum_part(t: SingleTypeModel) -> Seq<SingleTypeModel> {
    match t {
        SingleTypeModel::EnumVariant(..) => Seq::empty(),
        SingleTypeModel::EnumVariantS(..) => Seq::empty(),
        _ => seq![t],
    }
}

pub open spec fn assume_no_enum_spec(s: Seq<SingleTypeModel>) -> Seq<SingleTypeModel>
    decreases s.len(),
{
    if s.len() == 0 {
        Seq::empty()
    } else {
        add_all(assume_no_enum_spec(s.drop_last()), no_enum_part(s.last()))
    }
}

/// Whether each argument type fits in the argument it is paired with, as far
/// as both lists go, checked from the left.
pub open spec fn args_contained(ct: Seq<TypeModel>, i: Seq<SingleTypeModel>, args: Seq<TypeModel>) -> Option<bool>
    decreases i.len(),
{
    if i.len() == 0 || args.len() == 0 {
        Some(true)
    } else {
        and_then_opt(fits_in_type_spec(ct, i[0], args[0].types), args_contained(ct, i.drop_first(), args.drop_first()))
    }
}

/// The outputs of the variants in `io` whose arguments the `args` fit, joined
/// to `acc` as an ordered union from the left.
pub open spec fn run_io_spec(ct: Seq<TypeModel>, io: Seq<(Seq<SingleTypeModel>, TypeModel)>, args: Seq<TypeModel>, acc: Seq<SingleTypeModel>) -> Option<Seq<SingleTypeModel>>
    decreases io.len(),
{
    if io.len() == 0 {
        Some(acc)
    } else {
        match args_contained(ct, io[0].0, args) {
            None => None,
            Some(true) => run_io_spec(ct, io.drop_first(), args, add_all(acc, io[0].1.types)),
            Some(false) => run_io_spec(ct, io.drop_first(), args, acc),
        }
    }
}

/// [`run_io_spec`] over every alternative of `funcs` from the left; stops for
/// good at one that is not a function.
pub open spec fn run_funcs_spec(ct: Seq<TypeModel>, funcs: Seq<SingleTypeModel>, args: Seq<TypeModel>, acc: Seq<SingleTypeModel>) -> Option<Seq<SingleTypeModel>>
    decreases funcs.len(),
{
    if funcs.len() == 0 {
        Some(acc)
    } else {
        match funcs[0] {
            SingleTypeModel::Function(io) => match run_io_spec(ct, io, args, acc) {
                None => None,
                Some(a) => run_funcs_spec(ct, funcs.drop_first(), args, a),
            },
            _ => None,
        }
    }
}

/// The results of every thread alternative joined to `acc`; stops for good
/// at one that is not a thread.
pub open spec fn await_spec(s: Seq<SingleTypeModel>, acc: Seq<SingleTypeModel>) -> Option<Seq<SingleTypeModel>>
    decreases s.len(),
{
    if s.len() == 0 {
        Some(acc)
    } else {
        match s[0] {
            SingleTypeModel::Thread(v) => await_spec(s.drop_first(), add_all(acc, v.types)),
            _ => None,
        }
    }
}

/// `[]` or a one-value tuple of an element type of the type that `vec`
/// refers to; stops for good when `vec` is not a reference or has no elements.
pub open spec fn take_elem_spec(ct: Seq<TypeModel>, vec: TypeModel) -> Option<Seq<SingleTypeModel>> {
    match dereference_spec(vec.types) {
        Some(d) => match get_any_spec(ct, d) {
            Some(Some(t)) => Some(maybe(t)),
            _ => None,
        },
        None => None,
    }
}

/// The result type of the arithmetic functions: `int` for two ints, a
/// number for two that may each be an int, nothing for two that can be
/// neither, and otherwise `float`; `string` is added where `add` joins two
/// strings.
pub open spec fn math_spec(ct: Seq<TypeModel>, is_add: bool, a: TypeModel, b: TypeModel) -> Option<Seq<SingleTypeModel>> {
    let sa = fits_in_type_spec(ct, SingleTypeModel::String, a.types);
    let sb = fits_in_type_spec(ct, SingleTypeModel::String, b.types);
    let ia = fits_in_type_spec(ct, SingleTypeModel::Int, a.types);
    let fa = fits_in_type_spec(ct, SingleTypeModel::Float, a.types);
    let ib = fits_in_type_spec(ct, SingleTypeModel::Int, b.types);
    let fb = fits_in_type_spec(ct, SingleTypeModel::Float, b.types);
    if is_add && (sa is None || sb is None || sa != sb) {
        None
    } else if ia is None || fa is None || ib is None || fb is None {
        None
    } else {
        let o = if ia == Some(true) && fa == Some(false) && ib == Some(true) && fb == Some(false) {
            t_int()
        } else if ia == Some(true) && ib == Some(true) {
            t_num()
        } else if ia == Some(false) && fa == Some(false) && ib == Some(false) && fb == Some(false) {
            Seq::empty()
        } else {
            seq![SingleTypeModel::Float]
        };
        if is_add && sa == Some(true) {
            Some(add_all(o, t_string()))
        } else {
            Some(o)
        }
    }
}

/// The alternatives of what builtin `f` returns for arguments of the types
/// `ins`; `None` where the function stops (an argument missing, a type it
/// does not handle) or the computation does not finish.
pub open spec fn returns_spec(f: BuiltinFunction, ins: Seq<TypeModel>, ct: Seq<TypeModel>) -> Option<Seq<SingleTypeModel>> {
    match f {
        BuiltinFunction::Assume1 => if ins.len() >= 1 { Some(assume1_spec(ins[0].types)) } else { None },
        BuiltinFunction::AssumeNoEnum => if ins.len() >= 1 { Some(assume_no_enum_spec(ins[0].types)) } else { None },
        BuiltinFunction::NoEnum => if ins.len() >= 1 { Some(noenum_spec(ins[0].types)) } else { None },
        BuiltinFunction::Matches => if ins.len() >= 1 { Some(matches_spec(ins[0].types).1) } else { None },
        BuiltinFunction::Clone => if ins.len() >= 1 { dereference_spec(ins[0].types) } else { None },
        BuiltinFunction::Print | BuiltinFunction::Println | BuiltinFunction::Debug | BuiltinFunction::Sleep
        | BuiltinFunction::Push | BuiltinFunction::Insert => Some(seq![unit()]),
        BuiltinFunction::StdinReadLine | BuiltinFunction::ToString | BuiltinFunction::Format
        | BuiltinFunction::Trim | BuiltinFunction::Substring | BuiltinFunction::Replace => Some(t_string()),
        BuiltinFunction::ParseInt | BuiltinFunction::IndexOf => Some(seq![unit(), SingleTypeModel::Int]),
        BuiltinFunction::ParseFloat => Some(seq![unit(), SingleTypeModel::Float]),
        BuiltinFunction::Run => if ins.len() >= 1 {
            run_funcs_spec(ct, ins[0].types, ins.drop_first(), Seq::empty())
        } else {
            None
        },
        BuiltinFunction::Thread => if ins.len() >= 1 {
            match run_funcs_spec(ct, ins[0].types, ins.drop_first(), Seq::empty()) {
                Some(o) => Some(seq![SingleTypeModel::Thread(TypeModel { types: o })]),
                None => None,
            }
        } else {
            None
        },
        BuiltinFunction::Await => if ins.len() >= 1 { await_spec(ins[0].types, Seq::empty()) } else { None },
        BuiltinFunction::Pop => if ins.len() >= 1 { take_elem_spec(ct, ins[0]) } else { None },
        BuiltinFunction::Remove => if ins.len() >= 2 {
            match fits_all(ct, ins[1], t_int()) {
                Some(true) => take_elem_spec(ct, ins[0]),
                _ => None,
            }
        } else {
            None
        },
        BuiltinFunction::Get => if ins.len() >= 1 {
            match get_any_spec(ct, ins[0].types) {
                Some(Some(t)) => Some(maybe(t)),
                _ => None,
            }
        } else {
            None
        },
        BuiltinFunction::Exit => Some(Seq::empty()),
        BuiltinFunction::FsList => Some(seq![SingleTypeModel::List(one(SingleTypeModel::String)), err_string()]),
        BuiltinFunction::FsRead => Some(seq![SingleTypeModel::List(one(SingleTypeModel::Int)), err_string()]),
        BuiltinFunction::FsWrite => Some(seq![unit(), err_string()]),
        BuiltinFunction::BytesToString => Some(seq![
            SingleTypeModel::String,
            SingleTypeModel::EnumVariant(EV_ERR, one(SingleTypeModel::Tuple(seq![one(SingleTypeModel::String), one(SingleTypeModel::String)]))),
        ]),
        BuiltinFunction::StringToBytes => Some(t_list(t_int())),
        BuiltinFunction::RunCommand => Some(seq![
            err_string(),
            SingleTypeModel::Tuple(seq![TypeModel { types: seq![unit(), SingleTypeModel::Int] }, one(SingleTypeModel::String), one(SingleTypeModel::String)]),
        ]),
        BuiltinFunction::RunCommandGetBytes => Some(seq![
            err_string(),
            SingleTypeModel::Tuple(seq![
                TypeModel { types: seq![unit(), SingleTypeModel::Int] },
                TypeModel { types: t_list(t_int()) },
                TypeModel { types: t_list(t_int()) },
            ]),
        ]),
        BuiltinFunction::Not | BuiltinFunction::And | BuiltinFunction::Or | BuiltinFunction::Eq
        | BuiltinFunction::Ne | BuiltinFunction::Lt | BuiltinFunction::Gt | BuiltinFunction::Ltoe
        | BuiltinFunction::Gtoe | BuiltinFunction::Contains | BuiltinFunction::StartsWith
        | BuiltinFunction::EndsWith => Some(t_bool()),
        BuiltinFunction::Add => if ins.len() == 2 { math_spec(ct, true, ins[0], ins[1]) } else { None },
        BuiltinFunction::Sub | BuiltinFunction::Mul | BuiltinFunction::Div | BuiltinFunction::Mod
        | BuiltinFunction::Pow | BuiltinFunction::Min | BuiltinFunction::Max => if ins.len() == 2 {
            math_spec(ct, false, ins[0], ins[1])
        } else {
            None
        },
        BuiltinFunction::Len => Some(t_int()),
        BuiltinFunction::Regex => Some(seq![SingleTypeModel::List(one(SingleTypeModel::String)), err_string()]),
    }
}

fn unit_x() -> (r: VSingleType)
    ensures
        r.model() == unit(),
{
    let r = VSingleType::Tuple(Vec::new());
    assert(types_model(Seq::<VType>::empty()) =~= Seq::<TypeModel>::empty());
    assert(r.model() == SingleTypeModel::Tuple(types_model(Seq::<VType>::empty())));
    r
}

fn err_string_x() -> (r: VSingleType)
    ensures
        r.model() == err_string(),
{
    VSingleType::EnumVariant(EV_ERR, string_type())
}

/// A type from two single types.
fn pair_x(a: VSingleType, b: VSingleType) -> (r: VType)
    ensures
        r.model().types == seq![a.model(), b.model()],
{
    let ghost am = a.model();
    let ghost bm = b.model();
    let r = VType { types: vec![a, b] };
    assert(r.model().types == singles_model(r.types@));
    assert(r.model().types[0] == r.types@[0].model());
    assert(r.model().types[1] == r.types@[1].model());
    assert(r.model().types =~= seq![am, bm]);
    r
}

/// A tuple from three value types.
fn tuple3_x(a: VType, b: VType, c: VType) -> (r: VSingleType)
    ensures
        r.model() == SingleTypeModel::Tuple(seq![a.model(), b.model(), c.model()]),
{
    let ghost am = a.model();
    let ghost bm = b.model();
    let ghost cm = c.model();
    let v = vec![a, b, c];
    assert(types_model(v@)[0] == v@[0].model());
    assert(types_model(v@)[1] == v@[1].model());
    assert(types_model(v@)[2] == v@[2].model());
    assert(types_model(v@) =~= seq![am, bm, cm]);
    VSingleType::Tuple(v)
}

/// A tuple from two value types.
fn tuple2_x(a: VType, b: VType) -> (r: VSingleType)
    ensures
        r.model() == SingleTypeModel::Tuple(seq![a.model(), b.model()]),
{
    let ghost am = a.model();
    let ghost bm = b.model();
    let v = vec![a, b];
    assert(types_model(v@)[0] == v@[0].model());
    assert(types_model(v@)[1] == v@[1].model());
    assert(types_model(v@) =~= seq![am, bm]);
    VSingleType::Tuple(v)
}

fn maybe_x(t: VType) -> (r: VType)
    ensures
        r.model().types == maybe(t.model().types),
{
    let ghost tm = t.model();
    let v = vec![t];
    assert(types_model(v@)[0] == v@[0].model());
    assert(types_model(v@) =~= seq![tm]);
    pair_x(unit_x(), VSingleType::Tuple(v))
}

fn assume1_x(t: &VType) -> (r: VType)
    ensures
        r.model().types == assume1_spec(t.model().types),
{
    let ghost s = t.model().types;
    assert(s == singles_model(t.types@));
    let mut out = VType::empty();
    let mut i: usize = 0;
    assert(s.take(0) =~= Seq::<SingleTypeModel>::empty());
    while i < t.types.len()
        invariant
            i <= t.types@.len(),
            s == singles_model(t.types@),
            s.len() == t.types@.len(),
            out.model().types == assume1_spec(s.take(i as int)),
        decreases t.types@.len() - i,
    {
        assert(s.take(i + 1).drop_last() =~= s.take(i as int));
        assert(s[i as int] == t.types@[i as int].model());
        match &t.types[i] {
            VSingleType::Tuple(v) => {
                assert(s[i as int] == SingleTypeModel::Tuple(types_model(v@)));
                if v.len() > 0 {
                    assert(types_model(v@)[0] == v@[0].model());
                    out = out.union_ref(&v[0]);
                } else {
                    assert(add_all(out.model().types, Seq::<SingleTypeModel>::empty()) == out.model().types);
                }
            },
            other => {
                out = out.union(other.deep_clone().to());
            },
        }
        i += 1;
    }
    assert(s.take(i as int) =~= s);
    out
}

fn assume_no_enum_x(t: &VType) -> (r: VType)
    ensures
        r.model().types == assume_no_enum_spec(t.model().types),
{
    let ghost s = t.model().types;
    assert(s == singles_model(t.types@));
    let mut out = VType::empty();
    let mut i: usize = 0;
    assert(s.take(0) =~= Seq::<SingleTypeModel>::empty());
    while i < t.types.len()
        invariant
            i <= t.types@.len(),
            s == singles_model(t.types@),
            s.len() == t.types@.len(),
            out.model().types == assume_no_enum_spec(s.take(i as int)),
        decreases t.types@.len() - i,
    {
        assert(s.take(i + 1).drop_last() =~= s.take(i as int));
        assert(s[i as int] == t.types@[i as int].model());
        match &t.types[i] {
            VSingleType::EnumVariant(..) | VSingleType::EnumVariantS(..) => {
                assert(add_all(out.model().types, Seq::<SingleTypeModel>::empty()) == out.model().types);
            },
            other => {
                out = out.union(other.deep_clone().to());
            },
        }
        i += 1;
    }
    assert(s.take(i as int) =~= s);
    out
}

fn args_contained_x(i: &Vec<VSingleType>, input: &Vec<VType>, info: &GlobalScriptInfo) -> (r: bool)
    requires
        input@.len() >= 1,
        args_contained(info.custom(), singles_model(i@), types_model(input@).drop_first()) is Some,
    ensures
        Some(r) == args_contained(info.custom(), singles_model(i@), types_model(input@).drop_first()),
{
    let ghost im = singles_model(i@);
    let ghost am = types_model(input@).drop_first();
    let mut k: usize = 0;
    assert(im.skip(0) =~= im);
    assert(am.skip(0) =~= am);
    while k < i.len() && k + 1 < input.len()
        invariant
            im == singles_model(i@),
            am == types_model(input@).drop_first(),
            im.len() == i@.len(),
            am.len() == input@.len() - 1,
            k <= i@.len(),
            k <= am.len(),
            args_contained(info.custom(), im, am) is Some,
            args_contained(info.custom(), im.skip(k as int), am.skip(k as int)) == args_contained(info.custom(), im, am),
        decreases i@.len() - k,
    {
        proof {
            assert(im.skip(k as int)[0] == im[k as int]);
            assert(am.skip(k as int)[0] == am[k as int]);
            assert(im.skip(k as int).drop_first() =~= im.skip(k + 1));
            assert(am.skip(k as int).drop_first() =~= am.skip(k + 1));
            assert(im[k as int] == i@[k as int].model());
            assert(am[k as int] == input@[k + 1].model());
        }
        if !input[k + 1].contains(&i[k], info) {
            return false;
        }
        k += 1;
    }
    assert(im.skip(k as int).len() == 0 || am.skip(k as int).len() == 0);
    true
}

fn run_x(funcs: &VType, input: &Vec<VType>, info: &GlobalScriptInfo) -> (r: VType)
    requires
        input@.len() >= 1,
        run_funcs_spec(info.custom(), funcs.model().types, types_model(input@).drop_first(), Seq::empty()) is Some,
    ensures
        Some(r.model().types) == run_funcs_spec(info.custom(), funcs.model().types, types_model(input@).drop_first(), Seq::empty()),
{
    let ghost ct = info.custom();
    let ghost fs = funcs.model().types;
    let ghost args = types_model(input@).drop_first();
    assert(fs == singles_model(funcs.types@));
    let mut out = VType::empty();
    let mut i: usize = 0;
    assert(fs.skip(0) =~= fs);
    while i < funcs.types.len()
        invariant
            ct == info.custom(),
            fs == singles_model(funcs.types@),
            fs.len() == funcs.types@.len(),
            args == types_model(input@).drop_first(),
            input@.len() >= 1,
            i <= funcs.types@.len(),
            run_funcs_spec(ct, fs, args, Seq::empty()) is Some,
            run_funcs_spec(ct, fs.skip(i as int), args, out.model().types) == run_funcs_spec(ct, fs, args, Seq::empty()),
        decreases funcs.types@.len() - i,
    {
        proof {
            assert(fs.skip(i as int)[0] == fs[i as int]);
            assert(fs.skip(i as int).drop_first() =~= fs.skip(i + 1));
            assert(fs[i as int] == funcs.types@[i as int].model());
        }
        match &funcs.types[i] {
            VSingleType::Function(io) => {
                let ghost iom = crate::lang::type_model::fns_model(io@);
                assert(fs[i as int] == SingleTypeModel::Function(iom));
                let mut j: usize = 0;
                assert(iom.skip(0) =~= iom);
                let ghost acc0 = out.model().types;
                while j < io.len()
                    invariant
                        ct == info.custom(),
                        iom == crate::lang::type_model::fns_model(io@),
                        iom.len() == io@.len(),
                        args == types_model(input@).drop_first(),
                        input@.len() >= 1,
                        j <= io@.len(),
                        run_io_spec(ct, iom, args, acc0) is Some,
                        run_io_spec(ct, iom.skip(j as int), args, out.model().types) == run_io_spec(ct, iom, args, acc0),
                    decreases io@.len() - j,
                {
                    proof {
                        assert(iom.skip(j as int)[0] == iom[j as int]);
                        assert(iom.skip(j as int).drop_first() =~= iom.skip(j + 1));
                        assert(iom[j as int] == (singles_model(io@[j as int].0@), io@[j as int].1.model()));
                    }
                    if args_contained_x(&io[j].0, input, info) {
                        out = out.union_ref(&io[j].1);
                    }
                    j += 1;
                }
                assert(iom.skip(j as int).len() == 0);
            },
            _ => {
                assert(false);
            },
        }
        i += 1;
    }
    assert(fs.skip(i as int).len() == 0);
    out
}

fn await_x(t: &VType) -> (r: VType)
    requires
        await_spec(t.model().types, Seq::empty()) is Some,
    ensures
        Some(r.model().types) == await_spec(t.model().types, Seq::empty()),
{
    let ghost s = t.model().types;
    assert(s == singles_model(t.types@));
    let mut out = VType::empty();
    let mut i: usize = 0;
    assert(s.skip(0) =~= s);
    while i < t.types.len()
        invariant
            s == singles_model(t.types@),
            s.len() == t.types@.len(),
            i <= t.types@.len(),
            await_spec(s, Seq::empty()) is Some,
            await_spec(s.skip(i as int), out.model().types) == await_spec(s, Seq::empty()),
        decreases t.types@.len() - i,
    {
        proof {
            assert(s.skip(i as int)[0] == s[i as int]);
            assert(s.skip(i as int).drop_first() =~= s.skip(i + 1));
            assert(s[i as int] == t.types@[i as int].model());
        }
        match &t.types[i] {
            VSingleType::Thread(v) => {
                out = out.union_ref(v);
            },
            _ => {
                assert(false);
            },
        }
        i += 1;
    }
    assert(s.skip(i as int).len() == 0);
    out
}

fn take_elem_x(vec: &VType, info: &GlobalScriptInfo) -> (r: VType)
    requires
        take_elem_spec(info.custom(), vec.model()) is Some,
    ensures
        Some(r.model().types) == take_elem_spec(info.custom(), vec.model()),
{
    match vec.dereference() {
        Some(v) => match v.get_any(info) {
            Some(t) => maybe_x(t),
            None => {
                assert(false);
                VType::empty()
            },
        },
        None => {
            assert(false);
            VType::empty()
        },
    }
}

fn math_x(is_add: bool, a: &VType, b: &VType, info: &GlobalScriptInfo) -> (r: VType)
    requires
        math_spec(info.custom(), is_add, a.model(), b.model()) is Some,
    ensures
        Some(r.model().types) == math_spec(info.custom(), is_add, a.model(), b.model()),
{
    let mut might_be_string = false;
    if is_add {
        let sa = a.contains(&VSingleType::String, info);
        let sb = b.contains(&VSingleType::String, info);
        if sa && sb {
            might_be_string = true;
        } else if sa || sb {
            assert(false);
        }
    }
    let ia = a.contains(&VSingleType::Int, info);
    let fa = a.contains(&VSingleType::Float, info);
    let ib = b.contains(&VSingleType::Int, info);
    let fb = b.contains(&VSingleType::Float, info);
    let o = if ia && !fa && ib && !fb {
        int_type()
    } else if ia && ib {
        num_type()
    } else if !ia && !fa && !ib && !fb {
        VType::empty()
    } else {
        VSingleType::Float.to()
    };
    if might_be_string {
        o.union(string_type())
    } else {
        o
    }
}

impl BuiltinFunction {
    /// The type of what this function returns for arguments of the types `input`.
    #[verifier::rlimit(60)]
    pub fn return_type(&self, input: Vec<VType>, info: &GlobalScriptInfo) -> (r: VType)
        requires
            returns_spec(*self, types_model(input@), info.custom()) is Some,
        ensures
            Some(r.model().types) == returns_spec(*self, types_model(input@), info.custom()),
    {
        let ghost ins = types_model(input@);
        let n = input.len();
        proof {
            if n >= 1 { assert(ins[0] == input@[0].model()); }
            if n >= 2 { assert(ins[1] == input@[1].model()); }
        }
        match self {
            BuiltinFunction::Assume1 => assume1_x(&input[0]),
            BuiltinFunction::AssumeNoEnum => assume_no_enum_x(&input[0]),
            BuiltinFunction::NoEnum => input[0].deep_clone().noenum(),
            BuiltinFunction::Matches => input[0].matches().1,
            BuiltinFunction::Clone => match input[0].dereference() {
                Some(t) => t,
                None => {
                    assert(false);
                    VType::empty()
                },
            },
            BuiltinFunction::Print | BuiltinFunction::Println | BuiltinFunction::Debug | BuiltinFunction::Sleep
            | BuiltinFunction::Push | BuiltinFunction::Insert => unit_x().to(),
            BuiltinFunction::StdinReadLine | BuiltinFunction::ToString | BuiltinFunction::Format
            | BuiltinFunction::Trim | BuiltinFunction::Substring | BuiltinFunction::Replace => string_type(),
            BuiltinFunction::ParseInt | BuiltinFunction::IndexOf => pair_x(unit_x(), VSingleType::Int),
            BuiltinFunction::ParseFloat => pair_x(unit_x(), VSingleType::Float),
            BuiltinFunction::Run => run_x(&input[0], &input, info),
            BuiltinFunction::Thread => VSingleType::Thread(run_x(&input[0], &input, info)).to(),
            BuiltinFunction::Await => await_x(&input[0]),
            BuiltinFunction::Pop => take_elem_x(&input[0], info),
            BuiltinFunction::Remove => {
                if fits_all_x(&input[1], &int_type(), info) {
                    take_elem_x(&input[0], info)
                } else {
                    assert(false);
                    VType::empty()
                }
            },
            BuiltinFunction::Get => match input[0].get_any(info) {
                Some(t) => maybe_x(t),
                None => {
                    assert(false);
                    VType::empty()
                },
            },
            BuiltinFunction::Exit => VType::empty(),
            BuiltinFunction::FsList | BuiltinFunction::Regex => pair_x(VSingleType::List(string_type()), err_string_x()),
            BuiltinFunction::FsRead => pair_x(VSingleType::List(int_type()), err_string_x()),
            BuiltinFunction::FsWrite => pair_x(unit_x(), err_string_x()),
            BuiltinFunction::BytesToString => {
                pair_x(VSingleType::String, VSingleType::EnumVariant(EV_ERR, tuple2_x(string_type(), string_type()).to()))
            },
            BuiltinFunction::StringToBytes => list_type(int_type()),
            BuiltinFunction::RunCommand => {
                pair_x(err_string_x(), tuple3_x(pair_x(unit_x(), VSingleType::Int), string_type(), string_type()))
            },
            BuiltinFunction::RunCommandGetBytes => {
                pair_x(
                    err_string_x(),
                    tuple3_x(pair_x(unit_x(), VSingleType::Int), list_type(int_type()), list_type(int_type())),
                )
            },
            BuiltinFunction::Not | BuiltinFunction::And | BuiltinFunction::Or | BuiltinFunction::Eq
            | BuiltinFunction::Ne | BuiltinFunction::Lt | BuiltinFunction::Gt | BuiltinFunction::Ltoe
            | BuiltinFunction::Gtoe | BuiltinFunction::Contains | BuiltinFunction::StartsWith
            | BuiltinFunction::EndsWith => bool_type(),
            BuiltinFunction::Add => math_x(true, &input[0], &input[1], info),
            BuiltinFunction::Sub | BuiltinFunction::Mul | BuiltinFunction::Div | BuiltinFunction::Mod
            | BuiltinFunction::Pow | BuiltinFunction::Min | BuiltinFunction::Max => math_x(false, &input[0], &input[1], info),
            BuiltinFunction::Len => int_type(),
        }
    }
}

} // verus!
