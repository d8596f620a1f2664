use mers_libs::lang::global_info::GlobalScriptInfo;
use mers_libs::lang::val_type::{VSingleType, VType};
use mers_libs::name_map::NameMap;

fn t(types: Vec<VSingleType>) -> VType {
    VType { types }
}

fn int_t() -> VType {
    VSingleType::Int.to()
}

fn string() -> VType {
    VSingleType::String.to()
}

fn r(x: VSingleType) -> VSingleType {
    VSingleType::Reference(Box::new(x))
}

fn info_with_custom(custom: Vec<VType>) -> GlobalScriptInfo {
    GlobalScriptInfo {
        enum_variants: GlobalScriptInfo::default_enum_variants(),
        custom_type_names: NameMap::new(),
        custom_types: custom,
    }
}

#[test]
fn union_keeps_left_order_and_drops_duplicates() {
    let a = int_t();
    let b = t(vec![VSingleType::String, VSingleType::Int]);
    assert_eq!(a.union(b), t(vec![VSingleType::Int, VSingleType::String]));
    let c = t(vec![VSingleType::Bool, VSingleType::Int]);
    assert_eq!(
        c.union_ref(&t(vec![VSingleType::Int, VSingleType::Float, VSingleType::Bool])),
        t(vec![VSingleType::Bool, VSingleType::Int, VSingleType::Float])
    );
}

#[test]
fn union_with_itself_and_with_empty() {
    let a = t(vec![VSingleType::Int, VSingleType::String]);
    assert_eq!(a.deep_clone().union(a.deep_clone()), a);
    assert_eq!(a.deep_clone().union(VType::empty()), a);
    assert_eq!(VType::empty().union(a.deep_clone()), a);
}

#[test]
fn reference_then_dereference_gives_back_the_type() {
    let a = t(vec![VSingleType::Int, VSingleType::String]);
    let refd = a.reference();
    assert_eq!(refd, t(vec![r(VSingleType::Int), r(VSingleType::String)]));
    assert_eq!(refd.is_reference(), Some(true));
    assert_eq!(refd.dereference(), Some(a));
}

#[test]
fn is_reference_of_mixed_empty_and_plain_types() {
    assert_eq!(t(vec![VSingleType::Int, r(VSingleType::Int)]).is_reference(), None);
    assert_eq!(VType::empty().is_reference(), None);
    assert_eq!(int_t().is_reference(), Some(false));
    assert!(r(VSingleType::Int).is_reference());
    assert!(!VSingleType::Int.is_reference());
}

#[test]
fn dereference_needs_every_alternative_to_be_a_reference() {
    assert_eq!(t(vec![VSingleType::Int]).dereference(), None);
    assert_eq!(
        t(vec![r(VSingleType::Int), r(VSingleType::Int)]).dereference(),
        Some(int_t())
    );
    assert_eq!(VSingleType::Int.deref(), None);
    assert_eq!(r(VSingleType::Bool).deref(), Some(VSingleType::Bool));
}

#[test]
fn noenum_unwraps_enum_variants() {
    let a = t(vec![
        VSingleType::EnumVariant(0, int_t()),
        VSingleType::String,
        VSingleType::Int,
    ]);
    assert_eq!(a.noenum(), t(vec![VSingleType::Int, VSingleType::String]));
    assert_eq!(VSingleType::EnumVariant(3, string()).noenum(), string());
    assert_eq!(VSingleType::Bool.noenum(), VSingleType::Bool.to());
}

#[test]
fn matches_of_single_types() {
    assert_eq!(VSingleType::Tuple(vec![]).matches(), (true, VType::empty()));
    assert_eq!(VSingleType::Tuple(vec![int_t(), string()]).matches(), (false, int_t()));
    assert_eq!(VSingleType::Bool.matches(), (true, VSingleType::Bool.to()));
    assert_eq!(VSingleType::EnumVariant(0, int_t()).matches(), (true, VType::empty()));
    assert_eq!(VSingleType::Int.matches(), (false, int_t()));
}

#[test]
fn matches_of_a_type_joins_the_alternatives() {
    let a = t(vec![VSingleType::Bool, VSingleType::Tuple(vec![string()])]);
    assert_eq!(a.matches(), (true, t(vec![VSingleType::Bool, VSingleType::String])));
    let b = t(vec![VSingleType::Int, VSingleType::Tuple(vec![int_t()])]);
    assert_eq!(b.matches(), (false, int_t()));
}

#[test]
fn inner_types_of_single_types() {
    let tuple = VSingleType::Tuple(vec![t(vec![VSingleType::Int, VSingleType::String]), int_t()]);
    assert_eq!(tuple.inner_types(), vec![VSingleType::Int, VSingleType::String]);
    assert_eq!(VSingleType::List(VSingleType::Bool.to()).inner_types(), vec![VSingleType::Bool]);
    assert_eq!(VSingleType::Int.inner_types(), vec![VSingleType::Int]);
    assert_eq!(VSingleType::String.inner_types(), vec![]);
    let iter = VSingleType::Function(vec![
        (vec![VSingleType::Int], VSingleType::Bool.to()),
        (vec![], VSingleType::List(string()).to()),
    ]);
    assert_eq!(iter.inner_types(), vec![VSingleType::String]);
    assert_eq!(
        r(VSingleType::List(int_t())).inner_types(),
        vec![r(VSingleType::Int)]
    );
}

#[test]
fn inner_types_ref_keeps_repeated_tuple_values() {
    let tuple = VSingleType::Tuple(vec![int_t(), int_t()]);
    assert_eq!(tuple.inner_types_ref(), vec![r(VSingleType::Int), r(VSingleType::Int)]);
    assert_eq!(VSingleType::Int.inner_types_ref(), vec![]);
}

#[test]
fn inner_types_of_a_type() {
    let a = t(vec![
        VSingleType::Tuple(vec![int_t()]),
        VSingleType::List(t(vec![VSingleType::String, VSingleType::Int])),
    ]);
    assert_eq!(a.inner_types(), t(vec![VSingleType::Int, VSingleType::String]));
}

#[test]
fn enum_variants_get_ids_in_order_of_appearance() {
    let mut m = GlobalScriptInfo::default_enum_variants();
    let mut a = VSingleType::EnumVariantS("Ok".to_string(), int_t());
    a.enum_variants(&mut m);
    assert_eq!(a, VSingleType::EnumVariant(1, int_t()));
    assert_eq!(m.get(&"Ok".to_string()), Some(1));
    let mut b = VSingleType::EnumVariantS("Err".to_string(), string());
    b.enum_variants(&mut m);
    assert_eq!(b, VSingleType::EnumVariant(0, string()));
    let mut c = t(vec![VSingleType::Tuple(vec![VSingleType::EnumVariantS(
        "A".to_string(),
        VSingleType::EnumVariantS("B".to_string(), int_t()).to(),
    )
    .to()])]);
    c.enum_variants(&mut m);
    assert_eq!(
        c,
        t(vec![VSingleType::Tuple(vec![VSingleType::EnumVariant(
            2,
            VSingleType::EnumVariant(3, int_t()).to()
        )
        .to()])])
    );
    assert_eq!(m.len(), 4);
}

#[test]
fn fits_in_lists_the_alternatives_that_do_not_fit() {
    let info = GlobalScriptInfo::default();
    assert_eq!(int_t().fits_in(&t(vec![VSingleType::Int, VSingleType::String]), &info), vec![]);
    assert_eq!(
        t(vec![VSingleType::Int, VSingleType::Bool]).fits_in(&int_t(), &info),
        vec![VSingleType::Bool]
    );
    assert!(t(vec![VSingleType::Int, VSingleType::String]).contains(&VSingleType::Int, &info));
    assert!(!t(vec![VSingleType::Int, VSingleType::String]).contains(&VSingleType::Bool, &info));
}

#[test]
fn single_types_fit_structurally() {
    let info = GlobalScriptInfo::default();
    assert!(!r(VSingleType::Int).fits_in(&VSingleType::Int, &info));
    assert!(r(VSingleType::Int).fits_in(&r(VSingleType::Int), &info));
    let small = VSingleType::Tuple(vec![int_t()]);
    let big = VSingleType::Tuple(vec![t(vec![VSingleType::Int, VSingleType::String])]);
    assert!(small.fits_in(&big, &info));
    assert!(!big.fits_in(&small, &info));
    assert!(!small.fits_in(&VSingleType::Tuple(vec![int_t(), int_t()]), &info));
    assert!(VSingleType::List(int_t()).fits_in(&VSingleType::List(t(vec![VSingleType::Int, VSingleType::Float])), &info));
    assert!(VSingleType::EnumVariant(0, int_t()).fits_in(&VSingleType::EnumVariant(0, t(vec![VSingleType::Int, VSingleType::String])), &info));
    assert!(!VSingleType::EnumVariant(1, int_t()).fits_in(&VSingleType::EnumVariant(0, int_t()), &info));
    assert!(!VSingleType::Int.fits_in(&VSingleType::Float, &info));
}

#[test]
fn function_types_fit_by_output_with_equal_arguments() {
    let info = GlobalScriptInfo::default();
    let narrow = VSingleType::Function(vec![(vec![VSingleType::Int], int_t())]);
    let wide = VSingleType::Function(vec![(vec![VSingleType::Int], t(vec![VSingleType::Int, VSingleType::String]))]);
    assert!(narrow.fits_in(&wide, &info));
    assert!(!wide.fits_in(&narrow, &info));
    let other_args = VSingleType::Function(vec![(vec![VSingleType::String], t(vec![VSingleType::Int, VSingleType::String]))]);
    assert!(!narrow.fits_in(&other_args, &info));
}

#[test]
fn custom_types_fit_through_their_definition() {
    let info = info_with_custom(vec![t(vec![VSingleType::Int, VSingleType::String])]);
    assert!(VSingleType::CustomType(0).fits_in(&VSingleType::CustomType(0), &info));
    assert!(!VSingleType::CustomType(0).fits_in(&VSingleType::Int, &info));
    assert!(VSingleType::Int.fits_in(&VSingleType::CustomType(0), &info));
    assert!(VSingleType::CustomType(0).fits_in_type(&VSingleType::CustomType(0).to(), &info));
    assert!(VSingleType::CustomType(0).fits_in_type(&t(vec![VSingleType::Int, VSingleType::String]), &info));
    assert!(!VSingleType::CustomType(0).fits_in_type(&int_t(), &info));
}

#[test]
fn get_reads_an_element_type() {
    let info = GlobalScriptInfo::default();
    let tuple = VSingleType::Tuple(vec![int_t(), string()]);
    assert_eq!(tuple.get(1, &info), Some(string()));
    assert_eq!(tuple.get(2, &info), None);
    assert_eq!(VSingleType::List(int_t()).get(5, &info), Some(int_t()));
    assert_eq!(VSingleType::String.get(0, &info), Some(string()));
    assert_eq!(VSingleType::Int.get(0, &info), None);
    assert_eq!(r(VSingleType::List(int_t())).get(0, &info), Some(r(VSingleType::Int).to()));
    assert_eq!(VSingleType::List(int_t()).get_ref(0, &info), Some(r(VSingleType::Int).to()));
}

#[test]
fn get_always_only_for_tuples() {
    let info = GlobalScriptInfo::default();
    assert_eq!(VSingleType::List(int_t()).get_always(0, &info), None);
    assert_eq!(VSingleType::String.get_always(0, &info), None);
    assert_eq!(VSingleType::Tuple(vec![int_t()]).get_always(0, &info), Some(int_t()));
    assert_eq!(
        r(VSingleType::Tuple(vec![int_t()])).get_always(0, &info),
        Some(r(VSingleType::Int).to())
    );
    assert_eq!(
        VSingleType::Tuple(vec![string()]).get_always_ref(0, &info),
        Some(r(VSingleType::String).to())
    );
    let a = t(vec![VSingleType::Tuple(vec![int_t()]), VSingleType::Tuple(vec![string(), int_t()])]);
    assert_eq!(a.get_always(0, &info), Some(t(vec![VSingleType::Int, VSingleType::String])));
    assert_eq!(a.get_always(1, &info), None);
    assert_eq!(
        a.get_always_ref(0, &info),
        Some(t(vec![r(VSingleType::Int), r(VSingleType::String)]))
    );
}

#[test]
fn get_on_types_and_custom_types() {
    let info = info_with_custom(vec![VSingleType::List(int_t()).to()]);
    assert_eq!(VSingleType::CustomType(0).get(0, &info), Some(int_t()));
    assert_eq!(r(VSingleType::CustomType(0)).get(0, &info), Some(r(VSingleType::Int).to()));
    let a = t(vec![VSingleType::Tuple(vec![int_t()]), VSingleType::List(string())]);
    assert_eq!(a.get(0, &info), Some(t(vec![VSingleType::Int, VSingleType::String])));
    let b = t(vec![VSingleType::Tuple(vec![int_t()]), VSingleType::Int]);
    assert_eq!(b.get(0, &info), None);
}

#[test]
fn get_any_joins_all_element_types() {
    let info = GlobalScriptInfo::default();
    let tuple = VSingleType::Tuple(vec![int_t(), t(vec![VSingleType::String, VSingleType::Int])]);
    assert_eq!(tuple.get_any(&info), Some(t(vec![VSingleType::Int, VSingleType::String])));
    assert_eq!(r(VSingleType::List(int_t())).get_any(&info), Some(r(VSingleType::Int).to()));
    assert_eq!(VSingleType::Bool.get_any(&info), None);
    assert_eq!(VSingleType::EnumVariant(0, VSingleType::List(int_t()).to()).get_any(&info), Some(int_t()));
    let a = t(vec![VSingleType::List(int_t()), VSingleType::String]);
    assert_eq!(a.get_any(&info), Some(t(vec![VSingleType::Int, VSingleType::String])));
    assert_eq!(t(vec![VSingleType::List(int_t()), VSingleType::Int]).get_any(&info), None);
    assert_eq!(VSingleType::Tuple(vec![int_t()]).get_any_ref(&info), Some(r(VSingleType::Int).to()));
    assert_eq!(
        VSingleType::List(string()).to().get_any_ref(&info),
        Some(r(VSingleType::String).to())
    );
}

#[test]
fn get_any_of_a_custom_type() {
    let info = info_with_custom(vec![VSingleType::List(string()).to()]);
    assert_eq!(VSingleType::CustomType(0).get_any(&info), Some(string()));
}

#[test]
fn deep_clone_and_eq_model() {
    let a = t(vec![
        VSingleType::Function(vec![(vec![VSingleType::Int], string())]),
        VSingleType::EnumVariantS("X".to_string(), int_t()),
        VSingleType::CustomTypeS("y".to_string()),
    ]);
    let b = a.deep_clone();
    assert_eq!(a, b);
    assert!(a.eq_model(&b));
    assert!(!a.eq_model(&int_t()));
}

#[test]
fn every_type_fits_in_itself() {
    let info = GlobalScriptInfo::default();
    let a = t(vec![
        VSingleType::Tuple(vec![int_t(), t(vec![VSingleType::String, VSingleType::Bool])]),
        VSingleType::List(VSingleType::Float.to()),
        VSingleType::Function(vec![
            (vec![VSingleType::Int], string()),
            (vec![VSingleType::Bool], int_t()),
        ]),
        r(VSingleType::Thread(int_t())),
        VSingleType::EnumVariant(3, int_t()),
    ]);
    assert_eq!(a.fits_in(&a, &info), vec![]);
    for x in a.types.iter() {
        assert!(x.fits_in(x, &info));
    }
}

#[test]
fn enum_variants_twice_changes_nothing_more() {
    let mut m = GlobalScriptInfo::default_enum_variants();
    let mut a = t(vec![
        VSingleType::List(VSingleType::EnumVariantS("A".to_string(), int_t()).to()),
        VSingleType::Function(vec![(
            vec![VSingleType::EnumVariantS("B".to_string(), string())],
            VSingleType::EnumVariantS("A".to_string(), string()).to(),
        )]),
    ]);
    a.enum_variants(&mut m);
    let once = a.deep_clone();
    assert_eq!(m.len(), 3);
    a.enum_variants(&mut m);
    assert_eq!(a, once);
    assert_eq!(m.len(), 3);
    assert_eq!(
        once,
        t(vec![
            VSingleType::List(VSingleType::EnumVariant(1, int_t()).to()),
            VSingleType::Function(vec![(
                vec![VSingleType::EnumVariant(2, string())],
                VSingleType::EnumVariant(1, string()).to(),
            )]),
        ])
    );
}
