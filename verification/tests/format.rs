use mers_libs::lang::fmtgs::{Color, FormatInfo};
use mers_libs::lang::global_info::GlobalScriptInfo;
use mers_libs::lang::val_type::{VSingleType, VType};
use mers_libs::name_map::NameMap;

fn t(types: Vec<VSingleType>) -> VType {
    VType { types }
}

fn show(x: &VSingleType) -> String {
    x.fmtgs(None)
}

#[test]
fn simple_types_are_written_by_name() {
    assert_eq!(show(&VSingleType::Bool), "bool");
    assert_eq!(show(&VSingleType::Int), "int");
    assert_eq!(show(&VSingleType::Float), "float");
    assert_eq!(show(&VSingleType::String), "string");
}

#[test]
fn compound_types() {
    let tuple = VSingleType::Tuple(vec![VSingleType::Int.to(), t(vec![VSingleType::String, VSingleType::Bool])]);
    assert_eq!(show(&tuple), "[int string/bool]");
    assert_eq!(show(&VSingleType::Tuple(vec![])), "[]");
    assert_eq!(show(&VSingleType::List(VSingleType::Int.to())), "[int ...]");
    let f = VSingleType::Function(vec![
        (vec![VSingleType::Int, VSingleType::String], VSingleType::Bool.to()),
        (vec![], VSingleType::Int.to()),
    ]);
    assert_eq!(show(&f), "fn((int string bool)(int))");
    assert_eq!(show(&VSingleType::Thread(VSingleType::Float.to())), "thread(float)");
    assert_eq!(show(&VSingleType::Reference(Box::new(VSingleType::Int))), "&int");
}

#[test]
fn enum_variants_use_their_names_when_known() {
    let info = GlobalScriptInfo::default();
    let e = VSingleType::EnumVariant(0, VSingleType::String.to());
    assert_eq!(e.fmtgs(Some(&info)), "Err(string)");
    assert_eq!(e.fmtgs(None), "0(string)");
    assert_eq!(VSingleType::EnumVariant(7, VSingleType::Int.to()).fmtgs(Some(&info)), "7(int)");
    assert_eq!(show(&VSingleType::EnumVariantS("Ok".to_string(), VSingleType::Int.to())), "Ok(int)");
}

#[test]
fn custom_types_use_their_names() {
    let mut names = NameMap::new();
    names.insert("point".to_string(), 0);
    let info = GlobalScriptInfo {
        enum_variants: GlobalScriptInfo::default_enum_variants(),
        custom_type_names: names,
        custom_types: vec![VSingleType::Tuple(vec![VSingleType::Int.to(), VSingleType::Int.to()]).to()],
    };
    assert_eq!(VSingleType::CustomType(0).fmtgs(Some(&info)), "point");
    assert_eq!(show(&VSingleType::CustomType(0)), "[custom type #0]");
    assert_eq!(show(&VSingleType::CustomType(12)), "[custom type #12]");
    assert_eq!(show(&VSingleType::CustomTypeS("Point".to_string())), "Point");
}

#[test]
fn types_join_alternatives_with_slashes() {
    assert_eq!(t(vec![VSingleType::Int, VSingleType::String]).fmtgs(None), "int/string");
    assert_eq!(VType::empty().fmtgs(None), "");
}

#[test]
fn colors_wrap_text_in_escape_sequences() {
    assert_eq!(Color::Red.colorize("hi".to_string()), "\x1b[31mhi\x1b[0;39;49m");
    assert_eq!(Color::Grey.colorize("x".to_string()), "\x1b[37mx\x1b[0;39;49m");
    assert_eq!(Color::Cyan.colorize("\x1b[1mX".to_string()), "\x1b[36;1mX");
    let s = Color::Magenta.colorize(String::new());
    assert!(s.starts_with("\x1b[35m\x1b[0;"));
    assert!(s.ends_with('m'));
}

#[test]
fn line_prefix_indents_four_spaces_per_level() {
    let mut f = FormatInfo::default();
    assert_eq!(f.line_prefix(), "");
    f.go_deeper();
    f.go_deeper();
    assert_eq!(f.line_prefix(), "        ");
    f.go_shallower();
    assert_eq!(f.line_prefix(), "    ");
    assert_eq!(f.depth, 1);
    assert_eq!(f.brackets, 0);
}
