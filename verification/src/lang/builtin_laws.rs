//! What the type check of built-in calls promises: a built-in accepts its
//! arguments only in the number it takes and only where each argument has
//! the type the built-in documents for it; for built-ins whose arguments
//! all have a documented type, that is also enough.
use vstd::prelude::*;
use crate::lang::type_model::{SingleTypeModel, TypeModel};
use crate::lang::builtins::{BuiltinFunction, all_inputs_fit, and_then_opt, can_take_spec, fits_all, t_bool, t_int, t_list, t_num, t_string, t_string_or_ref};

verus! {

/// The type argument `i` of `f` must have, where the built-in documents one
/// fixed type for it.
pub open spec fn documented_arg(f: BuiltinFunction, i: int) -> Option<Seq<SingleTypeModel>> {
    match f {
        BuiltinFunction::Print | BuiltinFunction::Println | BuiltinFunction::ParseInt | BuiltinFunction::ParseFloat
        | BuiltinFunction::FsRead | BuiltinFunction::StringToBytes | BuiltinFunction::Trim => if i == 0 { Some(t_string()) } else { None },
        BuiltinFunction::Format | BuiltinFunction::Contains | BuiltinFunction::StartsWith | BuiltinFunction::EndsWith
        | BuiltinFunction::Regex | BuiltinFunction::Replace => Some(t_string()),
        BuiltinFunction::IndexOf => Some(t_string_or_ref()),
        BuiltinFunction::Sleep => if i == 0 { Some(t_num()) } else { None },
        BuiltinFunction::Exit => if i == 0 { Some(t_int()) } else { None },
        BuiltinFunction::FsWrite => if i == 0 { Some(t_string()) } else if i == 1 { Some(t_list(t_int())) } else { None },
        BuiltinFunction::BytesToString => if i == 0 { Some(t_list(t_int())) } else { None },
        BuiltinFunction::RunCommand | BuiltinFunction::RunCommandGetBytes => if i == 0 {
            Some(t_string())
        } else if i == 1 {
            Some(t_list(t_string()))
        } else {
            None
        },
        BuiltinFunction::Not | BuiltinFunction::And | BuiltinFunction::Or => Some(t_bool()),
        BuiltinFunction::Sub | BuiltinFunction::Mul | BuiltinFunction::Div | BuiltinFunction::Mod
        | BuiltinFunction::Pow | BuiltinFunction::Gt | BuiltinFunction::Lt | BuiltinFunction::Gtoe
        | BuiltinFunction::Ltoe | BuiltinFunction::Min | BuiltinFunction::Max => Some(t_num()),
        BuiltinFunction::Remove => if i == 1 { Some(t_int()) } else { None },
        BuiltinFunction::Substring => if i == 0 { Some(t_string()) } else if i == 1 || i == 2 { Some(t_int()) } else { None },
        BuiltinFunction::Assume1 | BuiltinFunction::AssumeNoEnum => if i == 1 { Some(t_string()) } else { None },
        _ => None,
    }
}

/// The numbers of arguments `f` takes.
pub open spec fn documented_arity(f: BuiltinFunction, n: int) -> bool {
    match f {
        BuiltinFunction::Assume1 | BuiltinFunction::AssumeNoEnum => 1 <= n <= 2,
        BuiltinFunction::NoEnum | BuiltinFunction::Matches | BuiltinFunction::Clone | BuiltinFunction::Print
        | BuiltinFunction::Println | BuiltinFunction::ParseInt | BuiltinFunction::ParseFloat | BuiltinFunction::FsRead
        | BuiltinFunction::StringToBytes | BuiltinFunction::Trim | BuiltinFunction::Await | BuiltinFunction::Sleep
        | BuiltinFunction::BytesToString | BuiltinFunction::Not | BuiltinFunction::Pop => n == 1,
        BuiltinFunction::Debug | BuiltinFunction::ToString | BuiltinFunction::FsList | BuiltinFunction::Get
        | BuiltinFunction::Len => true,
        BuiltinFunction::Format | BuiltinFunction::Run | BuiltinFunction::Thread => n >= 1,
        BuiltinFunction::StdinReadLine => n == 0,
        BuiltinFunction::Exit => n <= 1,
        BuiltinFunction::RunCommand | BuiltinFunction::RunCommandGetBytes => 1 <= n <= 2,
        BuiltinFunction::Substring => 2 <= n <= 3,
        BuiltinFunction::Insert | BuiltinFunction::Replace => n == 3,
        _ => n == 2,
    }
}

/// Built-ins whose acceptance depends on nothing but the number of
/// arguments and each argument's documented type.
pub open spec fn fully_documented(f: BuiltinFunction) -> bool {
    match f {
        BuiltinFunction::Print | BuiltinFunction::Println | BuiltinFunction::ParseInt | BuiltinFunction::ParseFloat
        | BuiltinFunction::FsRead | BuiltinFunction::StringToBytes | BuiltinFunction::Trim | BuiltinFunction::Format
        | BuiltinFunction::Contains | BuiltinFunction::StartsWith | BuiltinFunction::EndsWith | BuiltinFunction::Regex
        | BuiltinFunction::Replace | BuiltinFunction::IndexOf | BuiltinFunction::Sleep | BuiltinFunction::Exit
        | BuiltinFunction::FsWrite | BuiltinFunction::BytesToString | BuiltinFunction::RunCommand
        | BuiltinFunction::RunCommandGetBytes | BuiltinFunction::Not | BuiltinFunction::And | BuiltinFunction::Or
        | BuiltinFunction::Sub | BuiltinFunction::Mul | BuiltinFunction::Div | BuiltinFunction::Mod
        | BuiltinFunction::Pow | BuiltinFunction::Gt | BuiltinFunction::Lt | BuiltinFunction::Gtoe
        | BuiltinFunction::Ltoe | BuiltinFunction::Min | BuiltinFunction::Max | BuiltinFunction::Substring => true,
        _ => false,
    }
}

/// Every argument with a documented type has that type.
pub open spec fn args_documented_fit(f: BuiltinFunction, ins: Seq<TypeModel>, ct: Seq<TypeModel>) -> bool {
    forall|i: int| 0 <= i < ins.len() && (#[trigger] documented_arg(f, i)) is Some
        ==> fits_all(ct, ins[i], documented_arg(f, i).unwrap()) == Some(true)
}

proof fn lemma_all_inputs_fit(ct: Seq<TypeModel>, ins: Seq<TypeModel>, rhs: Seq<SingleTypeModel>)
    ensures
        all_inputs_fit(ct, ins, rhs) == Some(true)
            <==> forall|i: int| 0 <= i < ins.len() ==> fits_all(ct, #[trigger] ins[i], rhs) == Some(true),
    decreases ins.len(),
{
    if ins.len() > 0 {
        let d = ins.drop_first();
        lemma_all_inputs_fit(ct, d, rhs);
        if forall|i: int| 0 <= i < ins.len() ==> fits_all(ct, #[trigger] ins[i], rhs) == Some(true) {
            assert forall|i: int| 0 <= i < d.len() implies fits_all(ct, #[trigger] d[i], rhs) == Some(true) by {
                assert(d[i] == ins[i + 1]);
            }
        } else {
            let i = choose|i: int| 0 <= i < ins.len() && !(fits_all(ct, #[trigger] ins[i], rhs) == Some(true));
            if i > 0 {
                assert(d[i - 1] == ins[i]);
            }
        }
    }
}

/// A built-in accepts arguments only in a number it takes and only where
/// each argument with a documented type has it: `substring` with three
/// arguments is accepted only where the third is an `int`. `add` takes two
/// numbers or two strings.
pub proof fn law_accepted_args_fit(f: BuiltinFunction, ins: Seq<TypeModel>, ct: Seq<TypeModel>)
    requires
        can_take_spec(f, ins, ct) == Some(true),
    ensures
        documented_arity(f, ins.len() as int),
        args_documented_fit(f, ins, ct),
        f == BuiltinFunction::Add ==> (fits_all(ct, ins[0], t_num()) == Some(true) && fits_all(ct, ins[1], t_num()) == Some(true))
            || (fits_all(ct, ins[0], t_string()) == Some(true) && fits_all(ct, ins[1], t_string()) == Some(true)),
{
    lemma_all_inputs_fit(ct, ins, t_string());
    lemma_all_inputs_fit(ct, ins, t_bool());
    lemma_all_inputs_fit(ct, ins, t_string_or_ref());
}

/// For a built-in whose arguments all have documented types, arguments in
/// a number it takes, each of its documented type, are accepted.
pub proof fn law_documented_args_accepted(f: BuiltinFunction, ins: Seq<TypeModel>, ct: Seq<TypeModel>)
    requires
        fully_documented(f),
        documented_arity(f, ins.len() as int),
        args_documented_fit(f, ins, ct),
    ensures
        can_take_spec(f, ins, ct) == Some(true),
{
    lemma_all_inputs_fit(ct, ins, t_string());
    lemma_all_inputs_fit(ct, ins, t_bool());
    lemma_all_inputs_fit(ct, ins, t_string_or_ref());
    assert(ins.len() > 0 ==> documented_arg(f, 0) is Some ==> fits_all(ct, ins[0], documented_arg(f, 0).unwrap()) == Some(true));
    assert(ins.len() > 1 ==> documented_arg(f, 1) is Some ==> fits_all(ct, ins[1], documented_arg(f, 1).unwrap()) == Some(true));
    assert(ins.len() > 2 ==> documented_arg(f, 2) is Some ==> fits_all(ct, ins[2], documented_arg(f, 2).unwrap()) == Some(true));
    match f {
        BuiltinFunction::Format | BuiltinFunction::Contains | BuiltinFunction::StartsWith | BuiltinFunction::EndsWith
        | BuiltinFunction::Regex | BuiltinFunction::Replace => {
            assert forall|i: int| 0 <= i < ins.len() implies fits_all(ct, #[trigger] ins[i], t_string()) == Some(true) by {
                assert(documented_arg(f, i) == Some(t_string()));
            }
        },
        BuiltinFunction::IndexOf => {
            assert forall|i: int| 0 <= i < ins.len() implies fits_all(ct, #[trigger] ins[i], t_string_or_ref()) == Some(true) by {
                assert(documented_arg(f, i) == Some(t_string_or_ref()));
            }
        },
        BuiltinFunction::And | BuiltinFunction::Or => {
            assert forall|i: int| 0 <= i < ins.len() implies fits_all(ct, #[trigger] ins[i], t_bool()) == Some(true) by {
                assert(documented_arg(f, i) == Some(t_bool()));
            }
        },
        _ => {},
    }
}

} // verus!
