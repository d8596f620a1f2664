use std::path::PathBuf;

use mers_libs::parse::file::File;
use mers_libs::parse::parse::ParseErrors;
use mers_libs::parse::statement::{parse_block, parse_statement, parse_statement_adv, parse_step_interpret};
use mers_libs::script::code_parsed::{SStatement, SStatementEnum, VDataEnum};
use mers_libs::script::val_type::VSingleType;

fn file(s: &str) -> File {
    File::new(s.to_string(), PathBuf::from("t.mers"))
}

fn stmt(s: &str) -> SStatement {
    match parse_statement(&mut file(s)) {
        Ok(x) => x,
        Err(e) => panic!("no statement in {s:?}: at {}", e.location.current_char_index),
    }
}

fn int_of(s: &SStatement) -> isize {
    match &*s.statement {
        SStatementEnum::Value(VDataEnum::Int(i)) => *i,
        _ => panic!("not an integer"),
    }
}

fn var_of(s: &SStatement) -> (String, bool) {
    match &*s.statement {
        SStatementEnum::Variable(n, r) => (n.clone(), *r),
        _ => panic!("not a variable"),
    }
}

#[test]
fn assignment_stores_to_the_variable() {
    let s = stmt("my_var = 5\n");
    assert_eq!(s.output_to, Some(("my_var".to_string(), 0)));
    assert_eq!(int_of(&s), 5);
    let s = stmt("**x = y\n");
    assert_eq!(s.output_to, Some(("x".to_string(), 2)));
    assert_eq!(var_of(&s), ("y".to_string(), false));
}

#[test]
fn typed_assignment_forces_the_type() {
    let s = stmt("x::int = 5\n");
    assert_eq!(s.output_to, Some(("x".to_string(), 0)));
    assert_eq!(s.force_output_type, Some(VSingleType::Int.to()));
    assert_eq!(int_of(&s), 5);
}

#[test]
fn chain_calls_with_the_value_first() {
    let s = stmt("a.f(b)\n");
    match &*s.statement {
        SStatementEnum::FunctionCall(f, args) => {
            assert_eq!(f, "f");
            assert_eq!(args.len(), 2);
            assert_eq!(var_of(&args[0]), ("a".to_string(), false));
            assert_eq!(var_of(&args[1]), ("b".to_string(), false));
        },
        _ => panic!("not a call"),
    }
}

#[test]
fn chain_with_an_integer_indexes() {
    let s = stmt("t.1\n");
    match &*s.statement {
        SStatementEnum::IndexFixed(inner, i) => {
            assert_eq!(*i, 1);
            assert_eq!(var_of(inner), ("t".to_string(), false));
        },
        _ => panic!("not an index"),
    }
}

#[test]
fn tuples_lists_and_strings() {
    match &*stmt("[1 2 3 4]\n").statement {
        SStatementEnum::Tuple(v) => assert_eq!(v.iter().map(int_of).collect::<Vec<_>>(), vec![1, 2, 3, 4]),
        _ => panic!("not a tuple"),
    }
    match &*stmt("[1 2 ...]\n").statement {
        SStatementEnum::List(v) => assert_eq!(v.len(), 2),
        _ => panic!("not a list"),
    }
    match &*stmt("\"a\\tb\\n\\\"\"\n").statement {
        SStatementEnum::Value(VDataEnum::String(x)) => assert_eq!(x, "a\tb\n\""),
        _ => panic!("not a string"),
    }
}

#[test]
fn numbers_booleans_and_references() {
    assert_eq!(int_of(&stmt("-12\n")), -12);
    match &*stmt("1.5\n").statement {
        SStatementEnum::Value(VDataEnum::Float(x)) => assert_eq!(x, "1.5"),
        _ => panic!("not a float"),
    }
    match &*stmt("true\n").statement {
        SStatementEnum::Value(VDataEnum::Bool(b)) => assert!(*b),
        _ => panic!("not a bool"),
    }
    assert_eq!(var_of(&stmt("&x\n")), ("x".to_string(), true));
}

#[test]
fn if_with_else() {
    match &*stmt("if c 1 else 2\n").statement {
        SStatementEnum::If(c, y, Some(n)) => {
            assert_eq!(var_of(c), ("c".to_string(), false));
            assert_eq!(int_of(y), 1);
            assert_eq!(int_of(n), 2);
        },
        _ => panic!("not an if with else"),
    }
}

#[test]
fn function_definitions_and_blocks() {
    match &*stmt("fn f(a int) a\n").statement {
        SStatementEnum::FunctionDefinition(Some(n), f) => {
            assert_eq!(n, "f");
            assert_eq!(f.inputs.len(), 1);
            assert_eq!(f.inputs[0].0, "a");
            assert_eq!(f.inputs[0].1, VSingleType::Int.to());
            assert_eq!(f.block.statements.len(), 1);
        },
        _ => panic!("not a function"),
    }
    let b = match parse_block(&mut file("{ 1 2 }\n")) {
        Ok(b) => b,
        Err(_) => panic!("no block"),
    };
    assert_eq!(b.statements.iter().map(int_of).collect::<Vec<_>>(), vec![1, 2]);
}

#[test]
fn enum_variants_and_switch() {
    match &*stmt("v: 3\n").statement {
        SStatementEnum::EnumVariant(n, x) => {
            assert_eq!(n, "v");
            assert_eq!(int_of(x), 3);
        },
        _ => panic!("not a variant"),
    }
    match &*stmt("switch! x { int 1 string 2 }\n").statement {
        SStatementEnum::Switch(n, cases, force) => {
            assert_eq!(n, "x");
            assert!(*force);
            assert_eq!(cases.len(), 2);
            assert_eq!(cases[1].0, VSingleType::String.to());
        },
        _ => panic!("not a switch"),
    }
}

#[test]
fn errors_say_what_and_where() {
    match parse_statement(&mut file("x = ")) {
        Err(e) => {
            assert!(matches!(e.err, ParseErrors::FoundEofInStatement));
            assert_eq!(e.context.len(), 1);
            assert_eq!(e.context[0].0, "statement was supposed to be assigned to variable x");
        },
        Ok(_) => panic!("parsed"),
    }
    match parse_statement(&mut file("\"abc")) {
        Err(e) => assert!(matches!(e.err, ParseErrors::FoundEofInString)),
        Ok(_) => panic!("parsed"),
    }
    match parse_statement(&mut file("a.\"s\"\n")) {
        Err(e) => {
            assert!(matches!(e.err, ParseErrors::CannotUseFixedIndexingWithThisType(_)));
            assert_eq!(e.context[0].0, "the statement that was supposed to be wrapped");
        },
        Ok(_) => panic!("parsed"),
    }
    match parse_statement_adv(&mut file(")"), false) {
        Err(e) => assert!(matches!(e.err, ParseErrors::StatementCannotStartWith(')'))),
        Ok(_) => panic!("parsed"),
    }
}

#[test]
fn a_script_is_a_main_function_taking_args() {
    let f = match parse_step_interpret(&mut file("x = 1\nx\n")) {
        Ok(f) => f,
        Err(_) => panic!("no script"),
    };
    assert_eq!(f.inputs.len(), 1);
    assert_eq!(f.inputs[0].0, "args");
    assert_eq!(f.inputs[0].1, VSingleType::List(VSingleType::String.to()).to());
    assert_eq!(f.block.statements.len(), 2);
    assert_eq!(f.block.statements[0].output_to, Some(("x".to_string(), 0)));
    assert_eq!(var_of(&f.block.statements[1]), ("x".to_string(), false));
}

#[test]
fn for_match_and_loop() {
    match &*stmt("for i [1 2] i\n").statement {
        SStatementEnum::For(n, c, b) => {
            assert_eq!(n, "i");
            assert!(matches!(&*c.statement, SStatementEnum::Tuple(v) if v.len() == 2));
            assert_eq!(var_of(b), ("i".to_string(), false));
        },
        _ => panic!("not a for loop"),
    }
    match &*stmt("match x { a 1 b 2 }\n").statement {
        SStatementEnum::Match(n, cases) => {
            assert_eq!(n, "x");
            assert_eq!(cases.len(), 2);
            assert_eq!(var_of(&cases[0].0), ("a".to_string(), false));
            assert_eq!(int_of(&cases[1].1), 2);
        },
        _ => panic!("not a match"),
    }
    assert!(matches!(&*stmt("loop x\n").statement, SStatementEnum::Loop(_)));
}

#[test]
fn wrapping_with_a_block_is_an_error() {
    match parse_statement(&mut file("a.{ 1 }\n")) {
        Err(e) => assert!(matches!(e.err, ParseErrors::CannotWrapWithThisStatement(_))),
        Ok(_) => panic!("parsed"),
    }
}
