use mers_libs::lang::builtins::BuiltinFunction;
use mers_libs::lang::run_builtin::run_builtin;
use mers_libs::lang::val_data::VDataEnum;
use mers_libs::{VSingleType, VType};

fn s(x: &str) -> VDataEnum {
    VDataEnum::String(x.to_string())
}

fn run(f: BuiltinFunction, args: Vec<VDataEnum>) -> Option<VDataEnum> {
    run_builtin(&f, &args)
}

fn unit() -> VDataEnum {
    VDataEnum::Tuple(vec![])
}

#[test]
fn integer_arithmetic() {
    assert_eq!(run(BuiltinFunction::Add, vec![VDataEnum::Int(2), VDataEnum::Int(3)]), Some(VDataEnum::Int(5)));
    assert_eq!(run(BuiltinFunction::Sub, vec![VDataEnum::Int(2), VDataEnum::Int(3)]), Some(VDataEnum::Int(-1)));
    assert_eq!(run(BuiltinFunction::Mul, vec![VDataEnum::Int(-4), VDataEnum::Int(3)]), Some(VDataEnum::Int(-12)));
    assert_eq!(run(BuiltinFunction::Div, vec![VDataEnum::Int(-7), VDataEnum::Int(2)]), Some(VDataEnum::Int(-3)));
    assert_eq!(run(BuiltinFunction::Mod, vec![VDataEnum::Int(-7), VDataEnum::Int(2)]), Some(VDataEnum::Int(-1)));
    assert_eq!(run(BuiltinFunction::Min, vec![VDataEnum::Int(4), VDataEnum::Int(3)]), Some(VDataEnum::Int(3)));
    assert_eq!(run(BuiltinFunction::Max, vec![VDataEnum::Int(4), VDataEnum::Int(3)]), Some(VDataEnum::Int(4)));
}

#[test]
fn integer_powers() {
    assert_eq!(run(BuiltinFunction::Pow, vec![VDataEnum::Int(2), VDataEnum::Int(10)]), Some(VDataEnum::Int(1024)));
    assert_eq!(run(BuiltinFunction::Pow, vec![VDataEnum::Int(-3), VDataEnum::Int(3)]), Some(VDataEnum::Int(-27)));
    assert_eq!(run(BuiltinFunction::Pow, vec![VDataEnum::Int(5), VDataEnum::Int(0)]), Some(VDataEnum::Int(1)));
    assert_eq!(run(BuiltinFunction::Pow, vec![VDataEnum::Int(5), VDataEnum::Int(-1)]), Some(VDataEnum::Int(0)));
    assert_eq!(run(BuiltinFunction::Pow, vec![VDataEnum::Int(2), VDataEnum::Int(200)]), None);
    assert_eq!(run(BuiltinFunction::Pow, vec![VDataEnum::Int(-1), VDataEnum::Int(1001)]), Some(VDataEnum::Int(-1)));
}

#[test]
fn failing_integer_arithmetic_gives_nothing() {
    assert_eq!(run(BuiltinFunction::Div, vec![VDataEnum::Int(1), VDataEnum::Int(0)]), None);
    assert_eq!(run(BuiltinFunction::Mod, vec![VDataEnum::Int(isize::MIN), VDataEnum::Int(-1)]), None);
    assert_eq!(run(BuiltinFunction::Add, vec![VDataEnum::Int(isize::MAX), VDataEnum::Int(1)]), None);
    assert_eq!(run(BuiltinFunction::Add, vec![VDataEnum::Int(1), s("a")]), None);
    assert_eq!(run(BuiltinFunction::Add, vec![VDataEnum::Int(1)]), None);
}

#[test]
fn comparisons_and_logic() {
    assert_eq!(run(BuiltinFunction::Gt, vec![VDataEnum::Int(2), VDataEnum::Int(1)]), Some(VDataEnum::Bool(true)));
    assert_eq!(run(BuiltinFunction::Lt, vec![VDataEnum::Int(2), VDataEnum::Int(1)]), Some(VDataEnum::Bool(false)));
    assert_eq!(run(BuiltinFunction::Gtoe, vec![VDataEnum::Int(1), VDataEnum::Int(1)]), Some(VDataEnum::Bool(true)));
    assert_eq!(run(BuiltinFunction::Ltoe, vec![VDataEnum::Int(2), VDataEnum::Int(1)]), Some(VDataEnum::Bool(false)));
    assert_eq!(run(BuiltinFunction::Not, vec![VDataEnum::Bool(true)]), Some(VDataEnum::Bool(false)));
    assert_eq!(run(BuiltinFunction::And, vec![VDataEnum::Bool(true), VDataEnum::Bool(false)]), Some(VDataEnum::Bool(false)));
    assert_eq!(run(BuiltinFunction::Or, vec![VDataEnum::Bool(true), VDataEnum::Bool(false)]), Some(VDataEnum::Bool(true)));
}

#[test]
fn string_builtins() {
    assert_eq!(run(BuiltinFunction::Add, vec![s("ab"), s("cd")]), Some(s("abcd")));
    assert_eq!(run(BuiltinFunction::Contains, vec![s("hello"), s("ll")]), Some(VDataEnum::Bool(true)));
    assert_eq!(run(BuiltinFunction::StartsWith, vec![s("hello"), s("he")]), Some(VDataEnum::Bool(true)));
    assert_eq!(run(BuiltinFunction::EndsWith, vec![s("hello"), s("he")]), Some(VDataEnum::Bool(false)));
    assert_eq!(run(BuiltinFunction::IndexOf, vec![s("aé-b"), s("-")]), Some(VDataEnum::Int(2)));
    assert_eq!(run(BuiltinFunction::IndexOf, vec![s("ab"), s("x")]), Some(unit()));
    assert_eq!(run(BuiltinFunction::Trim, vec![s("  x y \n")]), Some(s("x y")));
    assert_eq!(run(BuiltinFunction::Replace, vec![s("a-b-c"), s("-"), s("+")]), Some(s("a+b+c")));
    assert_eq!(run(BuiltinFunction::Substring, vec![s("hello"), VDataEnum::Int(1), VDataEnum::Int(3)]), Some(s("el")));
    assert_eq!(run(BuiltinFunction::Substring, vec![s("hello"), VDataEnum::Int(1)]), Some(s("ello")));
    assert_eq!(run(BuiltinFunction::Substring, vec![s(""), VDataEnum::Int(-1)]), None);
    assert_eq!(run(BuiltinFunction::Len, vec![s("hé")]), Some(VDataEnum::Int(3)));
}

#[test]
fn get_len_matches_and_noenum() {
    let t = VDataEnum::Tuple(vec![VDataEnum::Int(1), s("x")]);
    assert_eq!(run(BuiltinFunction::Get, vec![t.clone_data(), VDataEnum::Int(1)]), Some(VDataEnum::Tuple(vec![s("x")])));
    assert_eq!(run(BuiltinFunction::Get, vec![t.clone_data(), VDataEnum::Int(2)]), Some(unit()));
    assert_eq!(run(BuiltinFunction::Get, vec![t.clone_data(), VDataEnum::Int(-1)]), Some(unit()));
    assert_eq!(run(BuiltinFunction::Get, vec![s("abc"), VDataEnum::Int(2)]), Some(VDataEnum::Tuple(vec![s("c")])));
    let l = VDataEnum::List(VSingleType::Int.to(), vec![VDataEnum::Int(4)]);
    assert_eq!(
        run(BuiltinFunction::Get, vec![VDataEnum::Reference(Box::new(l.clone_data())), VDataEnum::Int(0)]),
        Some(VDataEnum::Tuple(vec![VDataEnum::Int(4)]))
    );
    assert_eq!(run(BuiltinFunction::Len, vec![t.clone_data()]), Some(VDataEnum::Int(2)));
    assert_eq!(run(BuiltinFunction::Matches, vec![t.clone_data()]), Some(VDataEnum::Tuple(vec![VDataEnum::Int(1)])));
    assert_eq!(run(BuiltinFunction::Matches, vec![VDataEnum::Bool(false)]), Some(unit()));
    assert_eq!(run(BuiltinFunction::Matches, vec![VDataEnum::Int(3)]), Some(VDataEnum::Tuple(vec![VDataEnum::Int(3)])));
    assert_eq!(
        run(BuiltinFunction::Matches, vec![VDataEnum::EnumVariant(0, Box::new(s("e")))]),
        Some(unit())
    );
    assert_eq!(run(BuiltinFunction::NoEnum, vec![VDataEnum::EnumVariant(0, Box::new(s("e")))]), Some(s("e")));
    assert_eq!(run(BuiltinFunction::NoEnum, vec![VDataEnum::Int(3)]), Some(VDataEnum::Int(3)));
    assert_eq!(run(BuiltinFunction::Clone, vec![VDataEnum::Reference(Box::new(VDataEnum::Int(3)))]), Some(VDataEnum::Int(3)));
    assert_eq!(run(BuiltinFunction::Clone, vec![VDataEnum::Int(3)]), None);
}

#[test]
fn builtins_that_do_more_than_compute_are_not_run_here() {
    assert_eq!(run(BuiltinFunction::Println, vec![s("x")]), None);
    assert_eq!(run(BuiltinFunction::Print, vec![s("x")]), None);
    let _ = VType::empty();
}

#[test]
fn equality_of_values() {
    let eq = |a: VDataEnum, b: VDataEnum| run(BuiltinFunction::Eq, vec![a, b]);
    assert_eq!(eq(VDataEnum::Int(1), VDataEnum::Int(1)), Some(VDataEnum::Bool(true)));
    assert_eq!(eq(VDataEnum::Int(1), s("1")), Some(VDataEnum::Bool(false)));
    assert_eq!(
        eq(VDataEnum::Reference(Box::new(s("a"))), s("a")),
        Some(VDataEnum::Bool(true))
    );
    assert_eq!(
        eq(
            VDataEnum::List(VSingleType::Int.to(), vec![VDataEnum::Int(1)]),
            VDataEnum::List(VType::empty(), vec![VDataEnum::Int(1)])
        ),
        Some(VDataEnum::Bool(true))
    );
    assert_eq!(
        eq(VDataEnum::Tuple(vec![VDataEnum::Int(1)]), VDataEnum::Tuple(vec![VDataEnum::Int(1), VDataEnum::Int(2)])),
        Some(VDataEnum::Bool(false))
    );
    assert_eq!(
        eq(VDataEnum::EnumVariant(1, Box::new(VDataEnum::Int(2))), VDataEnum::EnumVariant(2, Box::new(VDataEnum::Int(2)))),
        Some(VDataEnum::Bool(false))
    );
    assert_eq!(eq(VDataEnum::Float(0.0f64.to_bits()), VDataEnum::Float((-0.0f64).to_bits())), Some(VDataEnum::Bool(true)));
    assert_eq!(eq(VDataEnum::Float(f64::NAN.to_bits()), VDataEnum::Float(f64::NAN.to_bits())), Some(VDataEnum::Bool(false)));
    assert_eq!(eq(VDataEnum::Float(1.5f64.to_bits()), VDataEnum::Float(1.5f64.to_bits())), Some(VDataEnum::Bool(true)));
    assert_eq!(run(BuiltinFunction::Ne, vec![VDataEnum::Int(1), VDataEnum::Int(2)]), Some(VDataEnum::Bool(true)));
}

#[test]
fn regex_gives_the_matches_or_an_err_variant() {
    assert_eq!(
        run(BuiltinFunction::Regex, vec![s("a1b22"), s("[0-9]+")]),
        Some(VDataEnum::List(VSingleType::String.to(), vec![s("1"), s("22")]))
    );
    match run(BuiltinFunction::Regex, vec![s("a"), s("(")]) {
        Some(VDataEnum::EnumVariant(0, inner)) => match *inner {
            VDataEnum::String(msg) => assert!(!msg.is_empty()),
            other => panic!("not a message: {other:?}"),
        },
        other => panic!("not an error: {other:?}"),
    }
}

#[test]
fn parse_int_string_to_bytes_and_assumptions() {
    assert_eq!(run(BuiltinFunction::ParseInt, vec![s("-42")]), Some(VDataEnum::Int(-42)));
    assert_eq!(run(BuiltinFunction::ParseInt, vec![s("+7")]), Some(VDataEnum::Int(7)));
    assert_eq!(run(BuiltinFunction::ParseInt, vec![s("4x")]), Some(unit()));
    assert_eq!(run(BuiltinFunction::ParseInt, vec![s("")]), Some(unit()));
    assert_eq!(run(BuiltinFunction::ParseInt, vec![s("-")]), Some(unit()));
    assert_eq!(run(BuiltinFunction::ParseInt, vec![s(" 1")]), Some(unit()));
    assert_eq!(
        run(BuiltinFunction::ParseInt, vec![s(&isize::MIN.to_string())]),
        Some(VDataEnum::Int(isize::MIN))
    );
    assert_eq!(run(BuiltinFunction::ParseInt, vec![s("99999999999999999999999")]), None);
    assert_eq!(
        run(BuiltinFunction::StringToBytes, vec![s("aé")]),
        Some(VDataEnum::List(
            VSingleType::Int.to(),
            vec![VDataEnum::Int(97), VDataEnum::Int(0xc3), VDataEnum::Int(0xa9)]
        ))
    );
    assert_eq!(run(BuiltinFunction::Assume1, vec![VDataEnum::Tuple(vec![VDataEnum::Int(3)])]), Some(VDataEnum::Int(3)));
    assert_eq!(run(BuiltinFunction::Assume1, vec![unit(), s("msg")]), None);
    assert_eq!(run(BuiltinFunction::Assume1, vec![VDataEnum::Int(3)]), Some(VDataEnum::Int(3)));
    assert_eq!(run(BuiltinFunction::AssumeNoEnum, vec![VDataEnum::Int(3)]), Some(VDataEnum::Int(3)));
    assert_eq!(run(BuiltinFunction::AssumeNoEnum, vec![VDataEnum::EnumVariant(0, Box::new(unit()))]), None);
}
