use mers_libs::lang::code_parsed::{SBlock, SFunction, SStatement, SStatementEnum};
use mers_libs::lang::fmtgs::{ColorFormatMode, ColorFormatter, Color, FormatInfo};
use mers_libs::lang::val_data::VDataEnum;
use mers_libs::{VSingleType, VType};

fn st(k: SStatementEnum) -> SStatement {
    SStatement { output_to: None, statement: Box::new(k), force_output_type: None }
}

fn num(i: isize) -> SStatement {
    st(SStatementEnum::Value(VDataEnum::Int(i)))
}

fn var(n: &str) -> SStatement {
    st(SStatementEnum::Variable(n.to_string(), false))
}

fn show(s: &SStatement) -> String {
    s.fmtgs(None, &mut FormatInfo::default())
}

#[test]
fn values_tuples_lists_and_calls() {
    assert_eq!(show(&num(-12)), "-12");
    assert_eq!(show(&st(SStatementEnum::Value(VDataEnum::String("a b".to_string())))), "\"a b\"");
    assert_eq!(show(&st(SStatementEnum::Tuple(vec![num(1), num(2)]))), "[1 2]");
    assert_eq!(show(&st(SStatementEnum::List(vec![num(1), num(2)]))), "[1 2 ...]");
    assert_eq!(show(&st(SStatementEnum::FunctionCall("sum".to_string(), vec![var("a"), num(3)]))), "sum(a 3)");
    assert_eq!(show(&st(SStatementEnum::Variable("x".to_string(), true))), "&x");
    assert_eq!(show(&st(SStatementEnum::IndexFixed(var("t"), 3))), "t.3");
    assert_eq!(show(&st(SStatementEnum::EnumVariant("Err".to_string(), num(1)))), "Err: 1");
    assert_eq!(
        show(&st(SStatementEnum::TypeDefinition("t".to_string(), VSingleType::Int.to()))),
        "type t int"
    );
    assert_eq!(
        st(SStatementEnum::Value(VDataEnum::EnumVariant(0, Box::new(VDataEnum::Bool(true))))).fmtgs(None, &mut FormatInfo::default()),
        "0: true"
    );
}

#[test]
fn assignments_and_forced_types() {
    let mut s = num(5);
    s.output_to = Some((Box::new(var("x")), 0));
    assert_eq!(show(&s), "x = 5");
    let mut s = num(5);
    s.output_to = Some((Box::new(var("x")), 2));
    s.force_output_type = Some(VSingleType::Int.to());
    assert_eq!(show(&s), "**x =  -> int5");
}

#[test]
fn blocks_ifs_loops_and_matches_are_indented() {
    let block = st(SStatementEnum::Block(SBlock { statements: vec![num(1), var("a")] }));
    assert_eq!(show(&block), "{\n    1\n    a\n}");
    let mut form = FormatInfo { depth: 1, brackets: 0 };
    assert_eq!(block.fmtgs(None, &mut form), "{\n        1\n        a\n    }");
    assert_eq!(form.depth, 1);
    assert_eq!(show(&st(SStatementEnum::Block(SBlock { statements: vec![] }))), "{}");
    let i = st(SStatementEnum::If(var("c"), num(1), Some(num(2))));
    assert_eq!(show(&i), "if c 1 else 2");
    assert_eq!(show(&st(SStatementEnum::Loop(num(1)))), "loop 1");
    assert_eq!(show(&st(SStatementEnum::For("i".to_string(), num(3), var("i")))), "for i 3 i");
    let m = st(SStatementEnum::Match("x".to_string(), vec![(var("x"), num(1))]));
    assert_eq!(show(&m), "match x {    x 1\n}");
    let sw = st(SStatementEnum::Switch("x".to_string(), vec![(VSingleType::Int.to(), num(1))], true));
    assert_eq!(show(&sw), "switch! x {\n    int 1\n}");
    let f = st(SStatementEnum::FunctionDefinition(
        Some("f".to_string()),
        SFunction {
            inputs: vec![("a".to_string(), VSingleType::Int.to()), ("b".to_string(), VSingleType::String.to())],
            block: SBlock { statements: vec![var("a")] },
        },
    ));
    assert_eq!(show(&f), "fn f(a int bstring) {\n    a\n}");
}

#[test]
fn brackets_and_colors() {
    let fmt = ColorFormatter {
        mode: ColorFormatMode::Plain,
        bracket_colors: vec![Color::Red, Color::Blue],
        variable_color: Color::Green,
        keyword_if_color: Color::Red,
        keyword_else_color: Color::Red,
        keyword_loop_color: Color::Red,
        keyword_for_color: Color::Red,
        keyword_switch_color: Color::Red,
        keyword_match_color: Color::Red,
        function_call_color: Color::Cyan,
        function_def_fn_color: Color::Red,
        function_def_name_color: Color::Red,
        value_string_quotes_color: Color::Grey,
        value_string_content_color: Color::Grey,
    };
    let mut form = FormatInfo::default();
    assert_eq!(form.open_bracket(Some(&fmt), "(".to_string()), "(");
    assert_eq!(form.brackets, 1);
    assert_eq!(form.close_bracket(None, ")".to_string()), ")");
    assert_eq!(form.brackets, 0);
    assert_eq!(form.variable(Some(&fmt), "x".to_string()), "x");
    let colored = ColorFormatter { mode: ColorFormatMode::Colorize, ..fmt };
    assert_eq!(form.fncall(Some(&colored), "\u{1b}[1mf".to_string()), "\u{1b}[36;1mf");
    let _ = VType::empty();
}
