//! Every type fits in itself.
//!
//! Shown for types that name no custom type and hold no enum name still to be
//! resolved: on those the check never unfolds a definition, so it finishes
//! whatever the fuel.
use vstd::prelude::*;
use crate::lang::type_model::{SingleTypeModel, TypeModel};
use crate::lang::fits::{any_fits_f, fits_f, fits_single_f, fn_search_f, funcs_fit_f, single_fits, tuple_fits_f, type_fits};

verus! {

/// `t` names no custom type and no unresolved enum variant, at any depth.
pub open spec fn plain_single(t: SingleTypeModel) -> bool
    decreases t,
{
    match t {
        SingleTypeModel::Tuple(v) => plain_types(v),
        SingleTypeModel::List(x) => plain_singles(x.types),
        SingleTypeModel::Function(f) => plain_fns(f),
        SingleTypeModel::Thread(x) => plain_singles(x.types),
        SingleTypeModel::Reference(r) => plain_single(*r),
        SingleTypeModel::EnumVariant(_, x) => plain_singles(x.types),
        SingleTypeModel::EnumVariantS(..) => false,
        SingleTypeModel::CustomType(_) => false,
        SingleTypeModel::CustomTypeS(_) => false,
        _ => true,
    }
}

/// [`plain_single`] for every alternative.
pub open spec fn plain_singles(s: Seq<SingleTypeModel>) -> bool
    decreases s,
{
    s.len() == 0 || (plain_single(s[0]) && plain_singles(s.drop_first()))
}

/// [`plain_single`] for every alternative of every value.
pub open spec fn plain_types(v: Seq<TypeModel>) -> bool
    decreases v,
{
    v.len() == 0 || (plain_singles(v[0].types) && plain_types(v.drop_first()))
}

/// [`plain_single`] for the arguments and outputs of every variant.
pub open spec fn plain_fns(f: Seq<(Seq<SingleTypeModel>, TypeModel)>) -> bool
    decreases f,
{
    f.len() == 0 || (plain_singles(f[0].0) && plain_singles(f[0].1.types) && plain_fns(f.drop_first()))
}

proof fn lemma_single_total(ct: Seq<TypeModel>, a: SingleTypeModel, b: SingleTypeModel, fuel: nat)
    requires
        plain_single(a),
        plain_single(b),
    ensures
        fits_single_f(ct, a, b, fuel) is Some,
    decreases a, 0nat, 0nat,
{
    match (a, b) {
        (SingleTypeModel::Reference(r), SingleTypeModel::Reference(q)) => lemma_single_total(ct, *r, *q, fuel),
        (SingleTypeModel::EnumVariant(_, t1), SingleTypeModel::EnumVariant(_, t2)) => lemma_fits_total(ct, t1.types, t2.types, fuel),
        (SingleTypeModel::Tuple(x), SingleTypeModel::Tuple(y)) => if x.len() == y.len() {
            lemma_tuple_total(ct, x, y, fuel);
        },
        (SingleTypeModel::List(x), SingleTypeModel::List(y)) => lemma_fits_total(ct, x.types, y.types, fuel),
        (SingleTypeModel::Function(x), SingleTypeModel::Function(y)) => lemma_funcs_total(ct, x, y, fuel),
        (SingleTypeModel::Thread(x), SingleTypeModel::Thread(y)) => lemma_fits_total(ct, x.types, y.types, fuel),
        _ => {},
    }
}

proof fn lemma_any_total(ct: Seq<TypeModel>, t: SingleTypeModel, rhs: Seq<SingleTypeModel>, fuel: nat)
    requires
        plain_single(t),
        plain_singles(rhs),
    ensures
        any_fits_f(ct, t, rhs, fuel) is Some,
    decreases t, 1nat, rhs.len(),
{
    if rhs.len() > 0 {
        lemma_single_total(ct, t, rhs[0], fuel);
        lemma_any_total(ct, t, rhs.drop_first(), fuel);
    }
}

proof fn lemma_fits_total(ct: Seq<TypeModel>, s: Seq<SingleTypeModel>, rhs: Seq<SingleTypeModel>, fuel: nat)
    requires
        plain_singles(s),
        plain_singles(rhs),
    ensures
        fits_f(ct, s, rhs, fuel) is Some,
    decreases s, 2nat, 0nat,
{
    if s.len() > 0 {
        lemma_any_total(ct, s[0], rhs, fuel);
        lemma_fits_total(ct, s.drop_first(), rhs, fuel);
    }
}

proof fn lemma_tuple_total(ct: Seq<TypeModel>, x: Seq<TypeModel>, y: Seq<TypeModel>, fuel: nat)
    requires
        plain_types(x),
        plain_types(y),
    ensures
        tuple_fits_f(ct, x, y, fuel) is Some,
    decreases x, 0nat, 0nat,
{
    if x.len() > 0 && y.len() > 0 {
        lemma_fits_total(ct, x[0].types, y[0].types, fuel);
        lemma_tuple_total(ct, x.drop_first(), y.drop_first(), fuel);
    }
}

proof fn lemma_search_total(ct: Seq<TypeModel>, e: (Seq<SingleTypeModel>, TypeModel), y: Seq<(Seq<SingleTypeModel>, TypeModel)>, fuel: nat)
    requires
        plain_singles(e.1.types),
        plain_fns(y),
    ensures
        fn_search_f(ct, e, y, fuel) is Some,
    decreases e, 1nat, y.len(),
{
    if y.len() > 0 {
        lemma_fits_total(ct, e.1.types, y[0].1.types, fuel);
        lemma_search_total(ct, e, y.drop_first(), fuel);
    }
}

proof fn lemma_funcs_total(ct: Seq<TypeModel>, x: Seq<(Seq<SingleTypeModel>, TypeModel)>, y: Seq<(Seq<SingleTypeModel>, TypeModel)>, fuel: nat)
    requires
        plain_fns(x),
        plain_fns(y),
    ensures
        funcs_fit_f(ct, x, y, fuel) is Some,
    decreases x, 0nat, 0nat,
{
    if x.len() > 0 {
        lemma_search_total(ct, x[0], y, fuel);
        lemma_funcs_total(ct, x.drop_first(), y, fuel);
    }
}

proof fn lemma_single_refl(ct: Seq<TypeModel>, a: SingleTypeModel, fuel: nat)
    requires
        plain_single(a),
    ensures
        fits_single_f(ct, a, a, fuel) == Some(true),
    decreases a, 0nat, 0nat,
{
    match a {
        SingleTypeModel::Reference(r) => lemma_single_refl(ct, *r, fuel),
        SingleTypeModel::EnumVariant(_, t) => lemma_fits_refl(ct, t.types, t.types, fuel),
        SingleTypeModel::Tuple(x) => lemma_tuple_refl(ct, x, fuel),
        SingleTypeModel::List(x) => lemma_fits_refl(ct, x.types, x.types, fuel),
        SingleTypeModel::Function(x) => lemma_funcs_refl(ct, x, x, fuel),
        SingleTypeModel::Thread(x) => lemma_fits_refl(ct, x.types, x.types, fuel),
        _ => {},
    }
}

proof fn lemma_any_refl(ct: Seq<TypeModel>, t: SingleTypeModel, rhs: Seq<SingleTypeModel>, fuel: nat)
    requires
        plain_single(t),
        plain_singles(rhs),
        rhs.contains(t),
    ensures
        any_fits_f(ct, t, rhs, fuel) == Some(true),
    decreases t, 1nat, rhs.len(),
{
    lemma_single_total(ct, t, rhs[0], fuel);
    if fits_single_f(ct, t, rhs[0], fuel) == Some(false) {
        if rhs[0] == t {
            lemma_single_refl(ct, t, fuel);
        }
        let k = choose|k: int| 0 <= k < rhs.len() && rhs[k] == t;
        assert(rhs.drop_first()[k - 1] == t);
        lemma_any_refl(ct, t, rhs.drop_first(), fuel);
    }
}

proof fn lemma_fits_refl(ct: Seq<TypeModel>, s: Seq<SingleTypeModel>, rhs: Seq<SingleTypeModel>, fuel: nat)
    requires
        plain_singles(s),
        plain_singles(rhs),
        forall|i: int| 0 <= i < s.len() ==> rhs.contains(#[trigger] s[i]),
    ensures
        fits_f(ct, s, rhs, fuel) == Some(Seq::<SingleTypeModel>::empty()),
    decreases s, 2nat, 0nat,
{
    if s.len() == 0 {
    } else {
        assert(rhs.contains(s[0]));
        lemma_any_refl(ct, s[0], rhs, fuel);
        assert forall|i: int| 0 <= i < s.drop_first().len() implies rhs.contains(#[trigger] s.drop_first()[i]) by {
            assert(s.drop_first()[i] == s[i + 1]);
        }
        lemma_fits_refl(ct, s.drop_first(), rhs, fuel);
    }
}

proof fn lemma_tuple_refl(ct: Seq<TypeModel>, x: Seq<TypeModel>, fuel: nat)
    requires
        plain_types(x),
    ensures
        tuple_fits_f(ct, x, x, fuel) == Some(true),
    decreases x, 0nat, 0nat,
{
    if x.len() > 0 {
        let s = x[0].types;
        assert forall|i: int| 0 <= i < s.len() implies s.contains(#[trigger] s[i]) by {}
        lemma_fits_refl(ct, s, s, fuel);
        lemma_tuple_refl(ct, x.drop_first(), fuel);
    }
}

proof fn lemma_search_refl(ct: Seq<TypeModel>, e: (Seq<SingleTypeModel>, TypeModel), y: Seq<(Seq<SingleTypeModel>, TypeModel)>, fuel: nat)
    requires
        plain_singles(e.1.types),
        plain_fns(y),
        y.contains(e),
    ensures
        fn_search_f(ct, e, y, fuel) == Some(true),
    decreases e, 1nat, y.len(),
{
    lemma_fits_total(ct, e.1.types, y[0].1.types, fuel);
    let no = fits_f(ct, e.1.types, y[0].1.types, fuel)->0;
    if !(no.len() == 0 && e.0 == y[0].0) {
        if y[0] == e {
            let s = e.1.types;
            assert forall|i: int| 0 <= i < s.len() implies s.contains(#[trigger] s[i]) by {}
            lemma_fits_refl(ct, s, s, fuel);
        }
        let k = choose|k: int| 0 <= k < y.len() && y[k] == e;
        assert(y.drop_first()[k - 1] == e);
        lemma_search_refl(ct, e, y.drop_first(), fuel);
    }
}

proof fn lemma_funcs_refl(ct: Seq<TypeModel>, x: Seq<(Seq<SingleTypeModel>, TypeModel)>, y: Seq<(Seq<SingleTypeModel>, TypeModel)>, fuel: nat)
    requires
        plain_fns(x),
        plain_fns(y),
        forall|i: int| 0 <= i < x.len() ==> y.contains(#[trigger] x[i]),
    ensures
        funcs_fit_f(ct, x, y, fuel) == Some(true),
    decreases x, 0nat, 0nat,
{
    if x.len() > 0 {
        assert(y.contains(x[0]));
        lemma_search_refl(ct, x[0], y, fuel);
        assert forall|i: int| 0 <= i < x.drop_first().len() implies y.contains(#[trigger] x.drop_first()[i]) by {
            assert(x.drop_first()[i] == x[i + 1]);
        }
        lemma_funcs_refl(ct, x.drop_first(), y, fuel);
    }
}

/// Every type fits in itself: no alternative of it is left out of itself,
/// whatever the custom type definitions are.
pub proof fn law_type_fits_in_itself(ct: Seq<TypeModel>, s: Seq<SingleTypeModel>)
    requires
        plain_singles(s),
    ensures
        type_fits(ct, s, s) == Some(Seq::<SingleTypeModel>::empty()),
{
    lemma_fits_total(ct, s, s, 0);
    let f = choose|f: nat| fits_f(ct, s, s, f) is Some;
    assert forall|i: int| 0 <= i < s.len() implies s.contains(#[trigger] s[i]) by {}
    lemma_fits_refl(ct, s, s, f);
}

/// Every single type fits in itself, whatever the custom type definitions are.
pub proof fn law_single_fits_in_itself(ct: Seq<TypeModel>, a: SingleTypeModel)
    requires
        plain_single(a),
    ensures
        single_fits(ct, a, a) == Some(true),
{
    lemma_single_total(ct, a, a, 0);
    let f = choose|f: nat| fits_single_f(ct, a, a, f) is Some;
    lemma_single_refl(ct, a, f);
}

/// On types that name no custom type and no unresolved enum variant,
/// checking which alternatives fit finishes, so `VType::fits_in` can be
/// called on them.
pub proof fn law_fits_finishes(ct: Seq<TypeModel>, s: Seq<SingleTypeModel>, rhs: Seq<SingleTypeModel>)
    requires
        plain_singles(s),
        plain_singles(rhs),
    ensures
        type_fits(ct, s, rhs) is Some,
{
    lemma_fits_total(ct, s, rhs, 0);
}


/// The alternatives of a type all fit in `rhs` (the check finishing with
/// nothing left over) exactly when each alternative on its own fits in it.
pub proof fn lemma_all_alternatives_fit(ct: Seq<TypeModel>, s: Seq<SingleTypeModel>, rhs: Seq<SingleTypeModel>, fuel: nat)
    ensures
        fits_f(ct, s, rhs, fuel) == Some(Seq::<SingleTypeModel>::empty())
            <==> forall|i: int| 0 <= i < s.len() ==> #[trigger] any_fits_f(ct, s[i], rhs, fuel) == Some(true),
    decreases s.len(),
{
    if s.len() > 0 {
        let d = s.drop_first();
        lemma_all_alternatives_fit(ct, d, rhs, fuel);
        assert forall|i: int| 0 <= i < d.len() implies d[i] == s[i + 1] by {}
        if forall|i: int| 0 <= i < s.len() ==> #[trigger] any_fits_f(ct, s[i], rhs, fuel) == Some(true) {
            assert(any_fits_f(ct, s[0], rhs, fuel) == Some(true));
            assert forall|i: int| 0 <= i < d.len() implies #[trigger] any_fits_f(ct, d[i], rhs, fuel) == Some(true) by {
                assert(any_fits_f(ct, s[i + 1], rhs, fuel) == Some(true));
            }
        } else {
            let i = choose|i: int| 0 <= i < s.len() && !(#[trigger] any_fits_f(ct, s[i], rhs, fuel) == Some(true));
            if i > 0 {
                assert(d[i - 1] == s[i]);
                assert(!(any_fits_f(ct, d[i - 1], rhs, fuel) == Some(true)));
            }
            match any_fits_f(ct, s[0], rhs, fuel) {
                Some(f) => match fits_f(ct, d, rhs, fuel) {
                    Some(rest) => if !f {
                        assert((seq![s[0]] + rest).len() > 0);
                    },
                    None => {},
                },
                None => {},
            }
        }
    }
}

/// A list type fits in a list type exactly when every alternative of its
/// elements fits in the other's element type: `[int/string ...]` does not
/// fit where `[int ...]` is expected. The same holds of threads, and a
/// reference fits in a reference exactly when what it points to fits.
pub proof fn law_containers_fit(ct: Seq<TypeModel>, x: TypeModel, y: TypeModel, a: SingleTypeModel, b: SingleTypeModel, fuel: nat)
    ensures
        fits_single_f(ct, SingleTypeModel::List(x), SingleTypeModel::List(y), fuel) == Some(true)
            <==> forall|i: int| 0 <= i < x.types.len() ==> #[trigger] any_fits_f(ct, x.types[i], y.types, fuel) == Some(true),
        fits_single_f(ct, SingleTypeModel::Thread(x), SingleTypeModel::Thread(y), fuel) == Some(true)
            <==> forall|i: int| 0 <= i < x.types.len() ==> #[trigger] any_fits_f(ct, x.types[i], y.types, fuel) == Some(true),
        fits_single_f(ct, SingleTypeModel::Reference(Box::new(a)), SingleTypeModel::Reference(Box::new(b)), fuel)
            == fits_single_f(ct, a, b, fuel),
        fits_single_f(ct, SingleTypeModel::List(x), SingleTypeModel::Tuple(Seq::empty()), fuel) == Some(false),
{
    lemma_all_alternatives_fit(ct, x.types, y.types, fuel);
    match fits_f(ct, x.types, y.types, fuel) {
        Some(no) => {
            if no.len() == 0 {
                assert(no =~= Seq::<SingleTypeModel>::empty());
            }
        },
        None => {},
    }
}


proof fn lemma_tuple_elements_fit(ct: Seq<TypeModel>, x: Seq<TypeModel>, y: Seq<TypeModel>, fuel: nat)
    requires
        x.len() == y.len(),
    ensures
        tuple_fits_f(ct, x, y, fuel) == Some(true)
            <==> forall|i: int| 0 <= i < x.len() ==> #[trigger] fits_f(ct, x[i].types, y[i].types, fuel) == Some(Seq::<SingleTypeModel>::empty()),
    decreases x.len(),
{
    if x.len() > 0 {
        let (dx, dy) = (x.drop_first(), y.drop_first());
        lemma_tuple_elements_fit(ct, dx, dy, fuel);
        if forall|i: int| 0 <= i < x.len() ==> #[trigger] fits_f(ct, x[i].types, y[i].types, fuel) == Some(Seq::<SingleTypeModel>::empty()) {
            assert(fits_f(ct, x[0].types, y[0].types, fuel) == Some(Seq::<SingleTypeModel>::empty()));
            assert forall|i: int| 0 <= i < dx.len() implies #[trigger] fits_f(ct, dx[i].types, dy[i].types, fuel) == Some(Seq::<SingleTypeModel>::empty()) by {
                assert(dx[i] == x[i + 1] && dy[i] == y[i + 1]);
                assert(fits_f(ct, x[i + 1].types, y[i + 1].types, fuel) == Some(Seq::<SingleTypeModel>::empty()));
            }
        } else {
            let i = choose|i: int| 0 <= i < x.len() && !(#[trigger] fits_f(ct, x[i].types, y[i].types, fuel) == Some(Seq::<SingleTypeModel>::empty()));
            if i > 0 {
                assert(dx[i - 1] == x[i] && dy[i - 1] == y[i]);
                assert(!(fits_f(ct, dx[i - 1].types, dy[i - 1].types, fuel) == Some(Seq::<SingleTypeModel>::empty())));
            } else {
                match fits_f(ct, x[0].types, y[0].types, fuel) {
                    Some(no) => if no.len() == 0 {
                        assert(no =~= Seq::<SingleTypeModel>::empty());
                    },
                    None => {},
                }
            }
        }
    }
}

/// A tuple type fits in a tuple type exactly when both have as many values
/// and each value's type fits in the other's at the same position; `int`,
/// `float`, `string` and `bool` each fit in themselves and in none of the
/// others.
pub proof fn law_tuples_and_simple_types_fit(ct: Seq<TypeModel>, x: Seq<TypeModel>, y: Seq<TypeModel>, a: SingleTypeModel, b: SingleTypeModel, fuel: nat)
    ensures
        fits_single_f(ct, SingleTypeModel::Tuple(x), SingleTypeModel::Tuple(y), fuel) == Some(true)
            <==> x.len() == y.len()
                && forall|i: int| 0 <= i < x.len() ==> #[trigger] fits_f(ct, x[i].types, y[i].types, fuel) == Some(Seq::<SingleTypeModel>::empty()),
        (a is Int || a is Float || a is String || a is Bool) && (b is Int || b is Float || b is String || b is Bool)
            ==> fits_single_f(ct, a, b, fuel) == Some(a == b),
{
    if x.len() == y.len() {
        lemma_tuple_elements_fit(ct, x, y, fuel);
    }
}

} // verus!
