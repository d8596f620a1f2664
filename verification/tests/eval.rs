use mers_libs::lang::builtins::BuiltinFunction;
use mers_libs::lang::code_runnable::{eval, RStatement, RStatementEnum};
use mers_libs::lang::val_data::VDataEnum;
use mers_libs::{VSingleType, VType};

fn st(k: RStatementEnum) -> RStatement {
    RStatement { output_to: None, statement: Box::new(k) }
}

fn assign(var: usize, k: RStatementEnum) -> RStatement {
    RStatement { output_to: Some(var), statement: Box::new(k) }
}

fn val(v: VDataEnum) -> RStatement {
    st(RStatementEnum::Value(v))
}

fn var(i: usize) -> RStatement {
    st(RStatementEnum::Variable(i, false))
}

fn call(f: BuiltinFunction, args: Vec<RStatement>) -> RStatement {
    st(RStatementEnum::BuiltinFunction(f, args))
}

#[test]
fn a_block_gives_the_value_of_its_last_statement_and_keeps_assignments() {
    let mut vars = vec![VDataEnum::Int(0)];
    let block = st(RStatementEnum::Block(vec![
        assign(0, RStatementEnum::Value(VDataEnum::Int(5))),
        call(BuiltinFunction::Add, vec![var(0), val(VDataEnum::Int(2))]),
    ]));
    assert_eq!(eval(&block, &mut vars, 10), Some(VDataEnum::Int(7)));
    assert_eq!(vars, vec![VDataEnum::Int(5)]);
    assert_eq!(eval(&st(RStatementEnum::Block(vec![])), &mut vars, 10), Some(VDataEnum::Tuple(vec![])));
}

#[test]
fn a_loop_runs_until_its_body_matches() {
    // x = 0; loop { x = x + 1; if x >= 3 { [x] } else { [] } }
    let mut vars = vec![VDataEnum::Int(0)];
    let body = st(RStatementEnum::Block(vec![
        assign(0, RStatementEnum::BuiltinFunction(BuiltinFunction::Add, vec![var(0), val(VDataEnum::Int(1))])),
        st(RStatementEnum::If(
            call(BuiltinFunction::Gtoe, vec![var(0), val(VDataEnum::Int(3))]),
            st(RStatementEnum::Tuple(vec![var(0)])),
            Some(st(RStatementEnum::Tuple(vec![]))),
        )),
    ]));
    let l = st(RStatementEnum::Loop(body));
    assert_eq!(eval(&l, &mut vars, 10), Some(VDataEnum::Int(3)));
    assert_eq!(vars, vec![VDataEnum::Int(3)]);
    let mut vars = vec![VDataEnum::Int(0)];
    assert_eq!(eval(&l, &mut vars, 2), None);
}

#[test]
fn lists_tuples_indexes_and_enum_variants() {
    let mut vars: Vec<VDataEnum> = vec![];
    let l = st(RStatementEnum::List(vec![val(VDataEnum::Int(1)), val(VDataEnum::String("a".to_string()))]));
    assert_eq!(
        eval(&l, &mut vars, 1),
        Some(VDataEnum::List(
            VType { types: vec![VSingleType::Int, VSingleType::String] },
            vec![VDataEnum::Int(1), VDataEnum::String("a".to_string())]
        ))
    );
    let i = st(RStatementEnum::IndexFixed(st(RStatementEnum::Tuple(vec![val(VDataEnum::Int(1)), val(VDataEnum::Int(2))])), 1));
    assert_eq!(eval(&i, &mut vars, 1), Some(VDataEnum::Int(2)));
    let bad = st(RStatementEnum::IndexFixed(st(RStatementEnum::Tuple(vec![])), 0));
    assert_eq!(eval(&bad, &mut vars, 1), None);
    let e = st(RStatementEnum::EnumVariant(4, val(VDataEnum::Bool(true))));
    assert_eq!(eval(&e, &mut vars, 1), Some(VDataEnum::EnumVariant(4, Box::new(VDataEnum::Bool(true)))));
}

#[test]
fn and_and_or_skip_their_second_argument_when_the_first_decides() {
    // the second argument would assign to a variable that does not exist
    let mut vars = vec![VDataEnum::Int(0)];
    let failing = assign(9, RStatementEnum::Value(VDataEnum::Bool(true)));
    let and = call(BuiltinFunction::And, vec![val(VDataEnum::Bool(false)), failing]);
    assert_eq!(eval(&and, &mut vars, 1), Some(VDataEnum::Bool(false)));
    let failing = assign(9, RStatementEnum::Value(VDataEnum::Bool(true)));
    let or = call(BuiltinFunction::Or, vec![val(VDataEnum::Bool(false)), failing]);
    assert_eq!(eval(&or, &mut vars, 1), None);
    let r = st(RStatementEnum::Variable(0, true));
    assert_eq!(eval(&r, &mut vars, 1), Some(VDataEnum::Reference(Box::new(VDataEnum::Int(0)))));
    assert_eq!(eval(&var(3), &mut vars, 1), None);
}

#[test]
fn an_if_without_else_gives_an_empty_tuple() {
    let mut vars: Vec<VDataEnum> = vec![];
    let i = st(RStatementEnum::If(val(VDataEnum::Bool(false)), val(VDataEnum::Int(1)), None));
    assert_eq!(eval(&i, &mut vars, 1), Some(VDataEnum::Tuple(vec![])));
    let not_bool = st(RStatementEnum::If(val(VDataEnum::Int(1)), val(VDataEnum::Int(1)), None));
    assert_eq!(eval(&not_bool, &mut vars, 1), None);
}

#[test]
fn a_for_goes_through_integers_characters_and_elements() {
    // sum = 0; for i 4 { sum = sum + i }
    let mut vars = vec![VDataEnum::Int(0), VDataEnum::Int(0)];
    let body = assign(1, RStatementEnum::BuiltinFunction(BuiltinFunction::Add, vec![var(1), var(0)]));
    let f = st(RStatementEnum::For(0, val(VDataEnum::Int(4)), body));
    assert_eq!(eval(&f, &mut vars, 1), Some(VDataEnum::Tuple(vec![])));
    assert_eq!(vars[1], VDataEnum::Int(6));
    // the first character that is "b" ends the loop with it
    let mut vars = vec![VDataEnum::Int(0)];
    let body = st(RStatementEnum::If(
        call(BuiltinFunction::Eq, vec![var(0), val(VDataEnum::String("b".to_string()))]),
        st(RStatementEnum::Tuple(vec![var(0)])),
        None,
    ));
    let f = st(RStatementEnum::For(0, val(VDataEnum::String("abc".to_string())), body));
    assert_eq!(eval(&f, &mut vars, 1), Some(VDataEnum::String("b".to_string())));
    let mut vars = vec![VDataEnum::Int(0)];
    let f = st(RStatementEnum::For(0, val(VDataEnum::Bool(true)), val(VDataEnum::Int(1))));
    assert_eq!(eval(&f, &mut vars, 1), None);
}

#[test]
fn a_match_runs_the_first_case_that_matches_and_restores_the_variable() {
    // x = 7; match x { [] => 1, [x] => x + 1 }  (the second case sees what matched)
    let mut vars = vec![VDataEnum::Int(7)];
    let m = st(RStatementEnum::Match(
        0,
        vec![
            (st(RStatementEnum::Tuple(vec![])), val(VDataEnum::Int(1))),
            (
                st(RStatementEnum::Tuple(vec![val(VDataEnum::Int(40))])),
                call(BuiltinFunction::Add, vec![var(0), val(VDataEnum::Int(2))]),
            ),
        ],
    ));
    assert_eq!(eval(&m, &mut vars, 1), Some(VDataEnum::Int(42)));
    assert_eq!(vars, vec![VDataEnum::Int(7)]);
    let none = st(RStatementEnum::Match(0, vec![(val(VDataEnum::Bool(false)), val(VDataEnum::Int(1)))]));
    assert_eq!(eval(&none, &mut vars, 1), Some(VDataEnum::Tuple(vec![])));
}

#[test]
fn push_pop_insert_and_remove_change_the_list_in_a_variable() {
    let mut vars = vec![VDataEnum::List(VSingleType::Int.to(), vec![VDataEnum::Int(1)])];
    let r = || st(RStatementEnum::Variable(0, true));
    assert_eq!(eval(&call(BuiltinFunction::Push, vec![r(), val(VDataEnum::Int(2))]), &mut vars, 1), Some(VDataEnum::Tuple(vec![])));
    assert_eq!(
        eval(&call(BuiltinFunction::Insert, vec![r(), val(VDataEnum::Int(0)), val(VDataEnum::Int(0))]), &mut vars, 1),
        Some(VDataEnum::Tuple(vec![]))
    );
    assert_eq!(vars[0], VDataEnum::List(VSingleType::Int.to(), vec![VDataEnum::Int(0), VDataEnum::Int(1), VDataEnum::Int(2)]));
    assert_eq!(eval(&call(BuiltinFunction::Pop, vec![r()]), &mut vars, 1), Some(VDataEnum::Tuple(vec![VDataEnum::Int(2)])));
    assert_eq!(
        eval(&call(BuiltinFunction::Remove, vec![r(), val(VDataEnum::Int(0))]), &mut vars, 1),
        Some(VDataEnum::Tuple(vec![VDataEnum::Int(0)]))
    );
    assert_eq!(eval(&call(BuiltinFunction::Remove, vec![r(), val(VDataEnum::Int(5))]), &mut vars, 1), Some(VDataEnum::Tuple(vec![])));
    assert_eq!(vars[0], VDataEnum::List(VSingleType::Int.to(), vec![VDataEnum::Int(1)]));
    assert_eq!(
        eval(&call(BuiltinFunction::Insert, vec![r(), val(VDataEnum::Int(9)), val(VDataEnum::Int(0))]), &mut vars, 1),
        None
    );
}
