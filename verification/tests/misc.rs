use mers_libs::comments::strip_comments;
use mers_libs::lang::global_info::{GlobalScriptInfo, LogKind, EV_ERR};
use mers_libs::libs::inlib::{after_message, MessageOutcome, Respondable};
use mers_libs::lsp::{get_byte_pos_in_og, get_lsp_pos_in_og, Position};
use mers_libs::name_map::NameMap;
use mers_libs::script::to_runnable::{stype, stypes, GInfo};
use mers_libs::script::val_type::{VSingleType, VType};

fn chars(s: &str) -> Vec<char> {
    s.chars().collect()
}

fn text(v: Vec<char>) -> String {
    v.into_iter().collect()
}

#[test]
fn name_map_insert_get_and_id_for() {
    let mut m = NameMap::new();
    assert_eq!(m.len(), 0);
    assert_eq!(m.insert("a".to_string(), 5), None);
    assert_eq!(m.get(&"a".to_string()), Some(5));
    assert_eq!(m.insert("a".to_string(), 7), Some(5));
    assert_eq!(m.get(&"a".to_string()), Some(7));
    assert_eq!(m.len(), 1);
    assert_eq!(m.id_for(&"b".to_string()), 1);
    assert_eq!(m.id_for(&"b".to_string()), 1);
    assert_eq!(m.id_for(&"a".to_string()), 7);
    assert!(m.contains_key(&"b".to_string()));
    assert!(!m.contains_key(&"c".to_string()));
    assert_eq!(m.entries(), &vec![("a".to_string(), 7), ("b".to_string(), 1)]);
}

#[test]
fn default_script_info_knows_err() {
    let info = GlobalScriptInfo::default();
    assert_eq!(info.enum_variants.get(&"Err".to_string()), Some(EV_ERR));
    assert_eq!(info.enum_variants.len(), 1);
    assert_eq!(info.custom_types.len(), 0);
    assert_eq!(GInfo::default_enum_variants().get(&"Err".to_string()), Some(0));
}

#[test]
fn log_kind_logs_when_either_target_is_on() {
    assert!(!LogKind { stderr: false, log: false }.log());
    assert!(LogKind { stderr: true, log: false }.log());
    assert!(LogKind { stderr: false, log: true }.log());
}

#[test]
fn stype_gives_enum_variants_their_ids() {
    let mut g = GInfo::new(vec![], GInfo::default_enum_variants());
    let mut t = VSingleType::Tuple(vec![
        VSingleType::EnumVariantS("Some".to_string(), VSingleType::Int.to()).to(),
        VSingleType::EnumVariantS("Err".to_string(), VSingleType::String.to()).to(),
    ]);
    stype(&mut t, &mut g);
    assert_eq!(
        t,
        VSingleType::Tuple(vec![
            VSingleType::EnumVariant(1, VSingleType::Int.to()).to(),
            VSingleType::EnumVariant(0, VSingleType::String.to()).to(),
        ])
    );
    assert_eq!(g.enum_variants.get(&"Some".to_string()), Some(1));
    let mut l = VSingleType::List(VSingleType::EnumVariantS("X".to_string(), VSingleType::Int.to()).to());
    stype(&mut l, &mut g);
    assert_eq!(l, VSingleType::List(VSingleType::EnumVariantS("X".to_string(), VSingleType::Int.to()).to()));
    let mut v = VType {
        types: vec![
            VSingleType::Int,
            VSingleType::EnumVariantS("Some".to_string(), VSingleType::EnumVariantS("Deep".to_string(), VSingleType::Bool.to()).to()),
        ],
    };
    stypes(&mut v, &mut g);
    assert_eq!(
        v,
        VType {
            types: vec![
                VSingleType::Int,
                VSingleType::EnumVariant(1, VSingleType::EnumVariant(2, VSingleType::Bool.to()).to()),
            ]
        }
    );
}

#[test]
fn script_types_get_and_get_any() {
    let tuple = VSingleType::Tuple(vec![VSingleType::Int.to(), VSingleType::String.to()]);
    assert_eq!(tuple.get(1), Some(VSingleType::String.to()));
    assert_eq!(tuple.get(2), None);
    assert_eq!(VSingleType::Reference(Box::new(VSingleType::List(VSingleType::Int.to()))).get(0), Some(VSingleType::Int.to()));
    assert_eq!(VSingleType::EnumVariant(0, VSingleType::String.to()).get(3), Some(VSingleType::String.to()));
    assert_eq!(VSingleType::Int.get(0), None);
    assert_eq!(
        tuple.get_any(),
        Some(VType { types: vec![VSingleType::Int, VSingleType::String] })
    );
    let both = VType { types: vec![VSingleType::List(VSingleType::Int.to()), VSingleType::String] };
    assert_eq!(both.get(0), Some(VType { types: vec![VSingleType::Int, VSingleType::String] }));
    assert_eq!(both.get_any(), Some(VType { types: vec![VSingleType::Int, VSingleType::String] }));
    assert!(both.contains(&VSingleType::String));
    assert!(!both.contains(&VSingleType::Int));
}

#[test]
fn script_types_fit() {
    let a = VType { types: vec![VSingleType::Int, VSingleType::Bool] };
    let b = VType { types: vec![VSingleType::Int, VSingleType::String] };
    assert_eq!(a.fits_in(&b), vec![VSingleType::Bool]);
    assert_eq!(VSingleType::Int.to().fits_in(&b), vec![]);
    assert!(VSingleType::List(VSingleType::Int.to()).fits_in(&VSingleType::List(b)));
}

#[test]
fn comments_are_stripped() {
    assert_eq!(text(strip_comments(&chars("a // b\nc"), true)), "a \nc");
    assert_eq!(text(strip_comments(&chars("a // b\nc"), false)), "a c");
    assert_eq!(text(strip_comments(&chars("x /* y */z"), true)), "x z");
    assert_eq!(text(strip_comments(&chars("x /* never closed"), true)), "x ");
    assert_eq!(text(strip_comments(&chars("\\// not a comment"), true)), "// not a comment");
    assert_eq!(text(strip_comments(&chars("end/"), true)), "end/");
}

#[test]
fn byte_positions_from_editor_positions() {
    let og = "ab\ncd\r\nef";
    assert_eq!(get_byte_pos_in_og(og, 0, 1), 1);
    assert_eq!(get_byte_pos_in_og(og, 1, 0), 3);
    assert_eq!(get_byte_pos_in_og(og, 2, 1), 8);
    assert_eq!(get_byte_pos_in_og(og, 3, 0), og.len());
    assert_eq!(get_byte_pos_in_og("", 0, 4), 0);
}

#[test]
fn editor_positions_from_byte_positions() {
    let og = "ab\ncd\r\nef";
    assert_eq!(get_lsp_pos_in_og(og, 0), Position { line: 0, character: 0 });
    assert_eq!(get_lsp_pos_in_og(og, 2), Position { line: 0, character: 2 });
    assert_eq!(get_lsp_pos_in_og(og, 3), Position { line: 1, character: 0 });
    assert_eq!(get_lsp_pos_in_og(og, 5), Position { line: 1, character: 2 });
    assert_eq!(get_lsp_pos_in_og(og, 6), Position { line: 2, character: 0 });
    assert_eq!(get_lsp_pos_in_og(og, 8), Position { line: 2, character: 1 });
    assert_eq!(get_lsp_pos_in_og(og, 100), Position { line: 2, character: 2 });
    assert_eq!(get_lsp_pos_in_og("", 3), Position { line: 0, character: 0 });
    assert_eq!(get_lsp_pos_in_og("x\n", 2), Position { line: 0, character: 1 });
}

#[test]
fn waiting_for_messages() {
    assert_eq!(after_message::<u32>(MessageOutcome::Handled), None);
    assert_eq!(after_message(MessageOutcome::Unhandled(4u32)), Some(Err(4)));
    assert_eq!(after_message::<u32>(MessageOutcome::ReadFailed), Some(Ok(())));
    let r = Respondable::new(9, "msg");
    assert_eq!(r.id(), 9);
    assert_eq!(r.msg, "msg");
}

#[test]
fn every_script_type_fits_in_itself() {
    let a = VType {
        types: vec![
            VSingleType::Tuple(vec![VSingleType::Int.to(), VSingleType::String.to()]),
            VSingleType::Function(vec![(vec![VSingleType::Int], VSingleType::Bool.to())]),
            VSingleType::Reference(Box::new(VSingleType::List(VSingleType::Float.to()))),
            VSingleType::EnumVariant(1, VSingleType::Int.to()),
        ],
    };
    assert_eq!(a.fits_in(&a), vec![]);
    for x in a.types.iter() {
        assert!(x.fits_in(x));
    }
}

#[test]
fn script_unions_and_references() {
    let a = VType { types: vec![VSingleType::Int] };
    let b = VType { types: vec![VSingleType::String, VSingleType::Int] };
    assert_eq!(a.union(b), VType { types: vec![VSingleType::Int, VSingleType::String] });
    let c = VType { types: vec![VSingleType::Bool] };
    assert_eq!(c.union_ref(&VType { types: vec![VSingleType::Bool, VSingleType::Float] }), VType { types: vec![VSingleType::Bool, VSingleType::Float] });
    let refs = VType { types: vec![VSingleType::Reference(Box::new(VSingleType::Int))] };
    assert_eq!(refs.is_reference(), Some(true));
    assert_eq!(VType::empty().is_reference(), None);
}

#[test]
fn script_inner_types_take_a_function_output_as_it_is() {
    let f = VSingleType::Function(vec![(vec![], VSingleType::List(VSingleType::String.to()).to())]);
    assert_eq!(f.inner_types(), vec![VSingleType::List(VSingleType::String.to())]);
    let t = VSingleType::Tuple(vec![VSingleType::Int.to(), VType { types: vec![VSingleType::Int, VSingleType::Bool] }]);
    assert_eq!(t.inner_types(), vec![VSingleType::Int, VSingleType::Bool]);
    assert_eq!(VSingleType::Reference(Box::new(VSingleType::Int)).inner_types(), vec![]);
}

#[test]
fn script_enum_variants_and_noenum() {
    let mut m = GInfo::default_enum_variants();
    let mut t = VType {
        types: vec![VSingleType::List(VSingleType::EnumVariantS("Some".to_string(), VSingleType::Int.to()).to())],
    };
    t.enum_variants(&mut m);
    assert_eq!(
        t,
        VType { types: vec![VSingleType::List(VSingleType::EnumVariant(1, VSingleType::Int.to()).to())] }
    );
    let e = VType { types: vec![VSingleType::EnumVariant(1, VSingleType::Int.to()), VSingleType::String] };
    assert_eq!(e.noenum(), VType { types: vec![VSingleType::Int, VSingleType::String] });
    assert_eq!(
        VSingleType::Tuple(vec![]).matches(),
        (true, VType::empty())
    );
}

#[test]
fn editor_positions_and_byte_positions_round_trip() {
    let og = "first\r\nsecond line\n\nlast";
    for pos in [0usize, 3, 5, 7, 12, 18, 20, 21, 24] {
        let p = get_lsp_pos_in_og(og, pos);
        assert_eq!(get_byte_pos_in_og(og, p.line as usize, p.character as usize), pos);
    }
}

#[test]
fn text_without_slashes_or_backslashes_is_kept() {
    let s = "x := 1 * 2\n  y := \"a b\"\n";
    assert_eq!(text(strip_comments(&chars(s), true)), s);
    assert_eq!(text(strip_comments(&chars(s), false)), s);
}

#[test]
fn library_functions_are_found_by_their_last_registration() {
    let names = vec![
        vec!["open".to_string(), "read".to_string()],
        vec![],
        vec!["read".to_string(), "close".to_string()],
    ];
    let g = GInfo::new(names, GInfo::default_enum_variants());
    assert_eq!(g.lib_fn(&"open".to_string()), Some((0, 0)));
    assert_eq!(g.lib_fn(&"read".to_string()), Some((2, 0)));
    assert_eq!(g.lib_fn(&"close".to_string()), Some((2, 1)));
    assert_eq!(g.lib_fn(&"write".to_string()), None);
    assert_eq!(GInfo::default().lib_fn(&"open".to_string()), None);
}

#[test]
fn lib_fn_finds_the_last_registration() {
    let names = vec![
        vec!["a".to_string(), "b".to_string(), "a".to_string()],
        vec!["c".to_string()],
        vec!["b".to_string(), "d".to_string()],
    ];
    let g = GInfo::new(names, GInfo::default_enum_variants());
    assert_eq!(g.lib_fn(&"a".to_string()), Some((0, 2)));
    assert_eq!(g.lib_fn(&"b".to_string()), Some((2, 0)));
    assert_eq!(g.lib_fn(&"c".to_string()), Some((1, 0)));
    assert_eq!(g.lib_fn(&"x".to_string()), None);
}
