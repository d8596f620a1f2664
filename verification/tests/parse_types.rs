use std::path::PathBuf;

use mers_libs::parse::file::File;
use mers_libs::parse::parse::{parse_single_type, parse_type, trim_string, type_from_lowercase_name, ParseErrors};
use mers_libs::script::val_type::{VSingleType, VType};

fn file(s: &str) -> File {
    File::new(s.to_string(), PathBuf::from("t.mers"))
}

fn ty(s: &str) -> VType {
    match parse_type(&mut file(s)) {
        Ok(t) => t,
        Err(_) => panic!("no type: {s}"),
    }
}

fn t(types: Vec<VSingleType>) -> VType {
    VType { types }
}

#[test]
fn simple_names_are_case_insensitive() {
    assert_eq!(ty("int "), VSingleType::Int.to());
    assert_eq!(ty("  String "), VSingleType::String.to());
    assert_eq!(ty("BOOL "), VSingleType::Bool.to());
    assert_eq!(ty("float "), VSingleType::Float.to());
}

#[test]
fn alternatives_are_separated_by_slashes() {
    assert_eq!(ty("int/string "), t(vec![VSingleType::Int, VSingleType::String]));
}

#[test]
fn tuples_lists_and_references() {
    assert_eq!(
        ty("[int string]"),
        VSingleType::Tuple(vec![VSingleType::Int.to(), VSingleType::String.to()]).to()
    );
    assert_eq!(ty("[int ...]"), VSingleType::List(VSingleType::Int.to()).to());
    assert_eq!(ty("[]"), VSingleType::Tuple(vec![]).to());
    assert_eq!(ty("&int "), VSingleType::Reference(Box::new(VSingleType::Int)).to());
    assert_eq!(
        ty("&[string ...]"),
        VSingleType::Reference(Box::new(VSingleType::List(VSingleType::String.to()))).to()
    );
}

#[test]
fn function_types_list_every_argument_combination() {
    assert_eq!(
        ty("fn((int string)) "),
        VSingleType::Function(vec![(vec![VSingleType::Int], VSingleType::String.to())]).to()
    );
    assert_eq!(
        ty("fn((int int/float string)) "),
        VSingleType::Function(vec![
            (vec![VSingleType::Int, VSingleType::Int], VSingleType::String.to()),
            (vec![VSingleType::Int, VSingleType::Float], VSingleType::String.to()),
        ])
        .to()
    );
    // the alternatives of the first argument stay together in one variant
    assert_eq!(
        ty("fn((int/float int string)) "),
        VSingleType::Function(vec![(
            vec![VSingleType::Int, VSingleType::Float, VSingleType::Int],
            VSingleType::String.to()
        )])
        .to()
    );
    assert_eq!(
        ty("fn((int)(string bool)) "),
        VSingleType::Function(vec![(vec![VSingleType::String], VSingleType::Bool.to())]).to()
    );
}

#[test]
fn threads_and_enum_variants() {
    assert_eq!(ty("thread(int) "), VSingleType::Thread(VSingleType::Int.to()).to());
    assert_eq!(
        ty("Err(string) "),
        VSingleType::EnumVariantS("Err".to_string(), VSingleType::String.to()).to()
    );
}

#[test]
fn unknown_names_are_invalid_types() {
    match parse_type(&mut file("foo ")) {
        Err(e) => match e.err {
            ParseErrors::InvalidType(n) => assert_eq!(n, "foo"),
            _ => panic!("wrong error"),
        },
        Ok(_) => panic!("parsed"),
    }
}

#[test]
fn end_of_text_errors() {
    match parse_type(&mut file("")) {
        Err(e) => assert!(matches!(e.err, ParseErrors::FoundEofInsteadOfType)),
        Ok(_) => panic!("parsed"),
    }
    match parse_single_type(&mut file("int")) {
        Err(e) => {
            assert!(matches!(e.err, ParseErrors::FoundEofInType));
            assert_eq!(e.location.current_char_index, 0);
            assert_eq!(e.location_end.map(|p| p.current_char_index), Some(4));
        }
        Ok(_) => panic!("parsed"),
    }
}

#[test]
fn parsing_stops_after_the_type() {
    let mut f = file("int x");
    match parse_type(&mut f) {
        Ok(x) => assert_eq!(x, VSingleType::Int.to()),
        Err(_) => panic!("no type"),
    }
    assert_eq!(f.get_char_index(), 4);
    assert_eq!(f.peek(), Some('x'));
}

#[test]
fn helpers_for_names() {
    assert_eq!(trim_string("  a b \n"), "a b");
    assert_eq!(type_from_lowercase_name("int"), Some(VSingleType::Int));
    assert_eq!(type_from_lowercase_name("Int"), None);
}

#[test]
fn comments_are_removed_before_parsing() {
    let f = file("a // x\nb /* y */ c");
    assert_eq!(f.index_from(0), "a b  c");
}
