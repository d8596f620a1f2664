use mers_libs::lang::builtins::BuiltinFunction;
use mers_libs::lang::global_info::{GlobalScriptInfo, EV_ERR};
use mers_libs::lang::val_type::{VSingleType, VType};

fn t(types: Vec<VSingleType>) -> VType {
    VType { types }
}

fn one(x: VSingleType) -> VType {
    x.to()
}

fn r(x: VSingleType) -> VSingleType {
    VSingleType::Reference(Box::new(x))
}

fn unit() -> VSingleType {
    VSingleType::Tuple(vec![])
}

#[test]
fn get_finds_functions_by_name() {
    assert_eq!(BuiltinFunction::get("println"), Some(BuiltinFunction::Println));
    assert_eq!(BuiltinFunction::get("read_line"), Some(BuiltinFunction::StdinReadLine));
    assert_eq!(BuiltinFunction::get("assume_no_enum"), Some(BuiltinFunction::AssumeNoEnum));
    assert_eq!(BuiltinFunction::get("regex"), Some(BuiltinFunction::Regex));
    assert_eq!(BuiltinFunction::get("nope"), None);
    assert_eq!(BuiltinFunction::get(""), None);
    assert_eq!(BuiltinFunction::get("Println"), None);
}

#[test]
fn print_takes_one_string() {
    let info = GlobalScriptInfo::default();
    let f = BuiltinFunction::Print;
    assert!(f.can_take(&vec![one(VSingleType::String)], &info));
    assert!(!f.can_take(&vec![one(VSingleType::Int)], &info));
    assert!(!f.can_take(&vec![one(VSingleType::String), one(VSingleType::String)], &info));
    assert!(!f.can_take(&vec![], &info));
}

#[test]
fn add_takes_two_numbers_or_two_strings() {
    let info = GlobalScriptInfo::default();
    let f = BuiltinFunction::Add;
    assert!(f.can_take(&vec![one(VSingleType::Int), one(VSingleType::Float)], &info));
    assert!(f.can_take(&vec![one(VSingleType::String), one(VSingleType::String)], &info));
    assert!(!f.can_take(&vec![one(VSingleType::String), one(VSingleType::Int)], &info));
    assert!(!f.can_take(&vec![one(VSingleType::Int)], &info));
}

#[test]
fn clone_takes_a_reference() {
    let info = GlobalScriptInfo::default();
    assert!(BuiltinFunction::Clone.can_take(&vec![one(r(VSingleType::Int))], &info));
    assert!(!BuiltinFunction::Clone.can_take(&vec![one(VSingleType::Int)], &info));
}

#[test]
fn push_checks_the_element_against_the_list() {
    let info = GlobalScriptInfo::default();
    let list_ref = one(r(VSingleType::List(one(VSingleType::Int))));
    // reading through a reference to a list gives references to its elements
    assert!(BuiltinFunction::Push.can_take(&vec![list_ref.deep_clone(), one(r(VSingleType::Int))], &info));
    assert!(!BuiltinFunction::Push.can_take(&vec![list_ref.deep_clone(), one(VSingleType::Int)], &info));
    assert!(!BuiltinFunction::Push.can_take(&vec![list_ref.deep_clone(), one(r(VSingleType::String))], &info));
    assert!(!BuiltinFunction::Push.can_take(&vec![one(VSingleType::List(one(VSingleType::Int))), one(VSingleType::Int)], &info));
    assert!(BuiltinFunction::Pop.can_take(&vec![list_ref], &info));
}

#[test]
fn small_argument_rules() {
    let info = GlobalScriptInfo::default();
    assert!(BuiltinFunction::Exit.can_take(&vec![], &info));
    assert!(BuiltinFunction::Exit.can_take(&vec![one(VSingleType::Int)], &info));
    assert!(!BuiltinFunction::Exit.can_take(&vec![one(VSingleType::String)], &info));
    assert!(BuiltinFunction::Sleep.can_take(&vec![t(vec![VSingleType::Int, VSingleType::Float])], &info));
    assert!(BuiltinFunction::StdinReadLine.can_take(&vec![], &info));
    assert!(!BuiltinFunction::StdinReadLine.can_take(&vec![one(VSingleType::Int)], &info));
    assert!(BuiltinFunction::Debug.can_take(&vec![one(VSingleType::Int), one(VSingleType::Bool)], &info));
    assert!(BuiltinFunction::Assume1.can_take(&vec![t(vec![unit(), VSingleType::Tuple(vec![one(VSingleType::Int)])])], &info));
    assert!(!BuiltinFunction::Assume1.can_take(&vec![one(VSingleType::Tuple(vec![one(VSingleType::Int), one(VSingleType::Int)]))], &info));
    assert!(BuiltinFunction::Await.can_take(&vec![one(VSingleType::Thread(one(VSingleType::Int)))], &info));
    assert!(!BuiltinFunction::Await.can_take(&vec![one(VSingleType::Int)], &info));
}

#[test]
fn run_takes_functions_of_the_right_arity() {
    let info = GlobalScriptInfo::default();
    let f = one(VSingleType::Function(vec![(vec![VSingleType::Int], one(VSingleType::String))]));
    assert!(BuiltinFunction::Run.can_take(&vec![f.deep_clone(), one(VSingleType::Int)], &info));
    assert!(!BuiltinFunction::Run.can_take(&vec![f, one(VSingleType::Int), one(VSingleType::Int)], &info));
    assert!(!BuiltinFunction::Run.can_take(&vec![one(VSingleType::Int)], &info));
}

#[test]
fn arithmetic_return_types() {
    let info = GlobalScriptInfo::default();
    let add = BuiltinFunction::Add;
    assert_eq!(add.return_type(vec![one(VSingleType::Int), one(VSingleType::Int)], &info), one(VSingleType::Int));
    assert_eq!(add.return_type(vec![one(VSingleType::Int), one(VSingleType::Float)], &info), one(VSingleType::Float));
    assert_eq!(
        add.return_type(vec![t(vec![VSingleType::Int, VSingleType::Float]), one(VSingleType::Int)], &info),
        t(vec![VSingleType::Int, VSingleType::Float])
    );
    assert_eq!(add.return_type(vec![one(VSingleType::String), one(VSingleType::String)], &info), one(VSingleType::String));
    assert_eq!(
        BuiltinFunction::Sub.return_type(vec![one(VSingleType::Float), one(VSingleType::Float)], &info),
        one(VSingleType::Float)
    );
    assert_eq!(
        BuiltinFunction::Lt.return_type(vec![one(VSingleType::Int), one(VSingleType::Int)], &info),
        one(VSingleType::Bool)
    );
}

#[test]
fn assume_and_parse_return_types() {
    let info = GlobalScriptInfo::default();
    assert_eq!(
        BuiltinFunction::Assume1.return_type(vec![t(vec![unit(), VSingleType::Tuple(vec![one(VSingleType::Int)])])], &info),
        one(VSingleType::Int)
    );
    assert_eq!(
        BuiltinFunction::AssumeNoEnum.return_type(vec![t(vec![VSingleType::EnumVariant(EV_ERR, one(VSingleType::String)), VSingleType::Int])], &info),
        one(VSingleType::Int)
    );
    assert_eq!(
        BuiltinFunction::ParseInt.return_type(vec![one(VSingleType::String)], &info),
        t(vec![unit(), VSingleType::Int])
    );
    assert_eq!(BuiltinFunction::Println.return_type(vec![one(VSingleType::String)], &info), one(unit()));
}

#[test]
fn list_function_return_types() {
    let info = GlobalScriptInfo::default();
    assert_eq!(
        BuiltinFunction::Get.return_type(vec![one(VSingleType::List(one(VSingleType::String))), one(VSingleType::Int)], &info),
        t(vec![unit(), VSingleType::Tuple(vec![one(VSingleType::String)])])
    );
    assert_eq!(
        BuiltinFunction::Pop.return_type(vec![one(r(VSingleType::List(one(VSingleType::Int))))], &info),
        t(vec![unit(), VSingleType::Tuple(vec![one(VSingleType::Int)])])
    );
    assert_eq!(
        BuiltinFunction::Clone.return_type(vec![one(r(VSingleType::Bool))], &info),
        one(VSingleType::Bool)
    );
}

#[test]
fn run_and_thread_return_the_matching_outputs() {
    let info = GlobalScriptInfo::default();
    let f = one(VSingleType::Function(vec![
        (vec![VSingleType::Int], one(VSingleType::String)),
        (vec![VSingleType::Bool], one(VSingleType::Float)),
    ]));
    assert_eq!(
        BuiltinFunction::Run.return_type(vec![f.deep_clone(), one(VSingleType::Int)], &info),
        one(VSingleType::String)
    );
    assert_eq!(
        BuiltinFunction::Thread.return_type(vec![f, one(VSingleType::Int)], &info),
        one(VSingleType::Thread(one(VSingleType::String)))
    );
    assert_eq!(
        BuiltinFunction::Await.return_type(vec![one(VSingleType::Thread(one(VSingleType::Int)))], &info),
        one(VSingleType::Int)
    );
}

#[test]
fn file_functions_may_return_errors() {
    let info = GlobalScriptInfo::default();
    assert_eq!(
        BuiltinFunction::FsRead.return_type(vec![one(VSingleType::String)], &info),
        t(vec![VSingleType::List(one(VSingleType::Int)), VSingleType::EnumVariant(EV_ERR, one(VSingleType::String))])
    );
    assert_eq!(BuiltinFunction::Exit.return_type(vec![], &info), VType::empty());
}
