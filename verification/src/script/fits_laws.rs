//! Every type fits in itself.
//!
//! Shown for types that hold no enum name still to be resolved, the ones on
//! which the check finishes.
use vstd::prelude::*;
use crate::script::type_model::{SingleTypeModel, TypeModel};
use crate::script::val_type::{any_fits_spec, fits_single_spec, fits_spec, fn_search_spec, funcs_fit_spec, tuple_fits_spec};

verus! {

/// `t` holds no unresolved enum variant, at any depth.
pub open spec fn plain_single(t: SingleTypeModel) -> bool
    decreases t,
{
    match t {
        SingleTypeModel::Tuple(v) => plain_types(v),
        SingleTypeModel::List(x) => plain_singles(x.types),
        SingleTypeModel::Function(f) => plain_fns(f),
        SingleTypeModel::Thread(x) => plain_singles(x.types),
        SingleTypeModel::Reference(r) => plain_single(*r),
        SingleTypeModel::EnumVariant(_, x) => plain_singles(x.types),
        SingleTypeModel::EnumVariantS(..) => false,
        _ => true,
    }
}

/// [`plain_single`] for every alternative.
pub open spec fn plain_singles(s: Seq<SingleTypeModel>) -> bool
    decreases s,
{
    s.len() == 0 || (plain_single(s[0]) && plain_singles(s.drop_first()))
}

/// [`plain_single`] for every alternative of every value.
pub open spec fn plain_types(v: Seq<TypeModel>) -> bool
    decreases v,
{
    v.len() == 0 || (plain_singles(v[0].types) && plain_types(v.drop_first()))
}

/// [`plain_single`] for the arguments and outputs of every variant.
pub open spec fn plain_fns(f: Seq<(Seq<SingleTypeModel>, TypeModel)>) -> bool
    decreases f,
{
    f.len() == 0 || (plain_singles(f[0].0) && plain_singles(f[0].1.types) && plain_fns(f.drop_first()))
}

proof fn lemma_single_total(a: SingleTypeModel, b: SingleTypeModel)
    requires
        plain_single(a),
        plain_single(b),
    ensures
        fits_single_spec(a, b) is Some,
    decreases a, 0nat, 0nat,
{
    match (a, b) {
        (SingleTypeModel::Reference(r), SingleTypeModel::Reference(q)) => lemma_single_total(*r, *q),
        (SingleTypeModel::EnumVariant(_, t1), SingleTypeModel::EnumVariant(_, t2)) => lemma_fits_total(t1.types, t2.types),
        (SingleTypeModel::Tuple(x), SingleTypeModel::Tuple(y)) => if x.len() == y.len() {
            lemma_tuple_total(x, y);
        },
        (SingleTypeModel::List(x), SingleTypeModel::List(y)) => lemma_fits_total(x.types, y.types),
        (SingleTypeModel::Function(x), SingleTypeModel::Function(y)) => lemma_funcs_total(x, y),
        (SingleTypeModel::Thread(x), SingleTypeModel::Thread(y)) => lemma_fits_total(x.types, y.types),
        _ => {},
    }
}

proof fn lemma_any_total(t: SingleTypeModel, rhs: Seq<SingleTypeModel>)
    requires
        plain_single(t),
        plain_singles(rhs),
    ensures
        any_fits_spec(t, rhs) is Some,
    decreases t, 1nat, rhs.len(),
{
    if rhs.len() > 0 {
        lemma_single_total(t, rhs[0]);
        lemma_any_total(t, rhs.drop_first());
    }
}

proof fn lemma_fits_total(s: Seq<SingleTypeModel>, rhs: Seq<SingleTypeModel>)
    requires
        plain_singles(s),
        plain_singles(rhs),
    ensures
        fits_spec(s, rhs) is Some,
    decreases s, 2nat, 0nat,
{
    if s.len() > 0 {
        lemma_any_total(s[0], rhs);
        lemma_fits_total(s.drop_first(), rhs);
    }
}

proof fn lemma_tuple_total(x: Seq<TypeModel>, y: Seq<TypeModel>)
    requires
        plain_types(x),
        plain_types(y),
    ensures
        tuple_fits_spec(x, y) is Some,
    decreases x, 0nat, 0nat,
{
    if x.len() > 0 && y.len() > 0 {
        lemma_fits_total(x[0].types, y[0].types);
        lemma_tuple_total(x.drop_first(), y.drop_first());
    }
}

proof fn lemma_search_total(e: (Seq<SingleTypeModel>, TypeModel), y: Seq<(Seq<SingleTypeModel>, TypeModel)>)
    requires
        plain_singles(e.1.types),
        plain_fns(y),
    ensures
        fn_search_spec(e, y) is Some,
    decreases e, 1nat, y.len(),
{
    if y.len() > 0 {
        lemma_fits_total(e.1.types, y[0].1.types);
        lemma_search_total(e, y.drop_first());
    }
}

proof fn lemma_funcs_total(x: Seq<(Seq<SingleTypeModel>, TypeModel)>, y: Seq<(Seq<SingleTypeModel>, TypeModel)>)
    requires
        plain_fns(x),
        plain_fns(y),
    ensures
        funcs_fit_spec(x, y) is Some,
    decreases x, 0nat, 0nat,
{
    if x.len() > 0 {
        lemma_search_total(x[0], y);
        lemma_funcs_total(x.drop_first(), y);
    }
}

proof fn lemma_single_refl(a: SingleTypeModel)
    requires
        plain_single(a),
    ensures
        fits_single_spec(a, a) == Some(true),
    decreases a, 0nat, 0nat,
{
    match a {
        SingleTypeModel::Reference(r) => lemma_single_refl(*r),
        SingleTypeModel::EnumVariant(_, t) => lemma_fits_refl(t.types, t.types),
        SingleTypeModel::Tuple(x) => lemma_tuple_refl(x),
        SingleTypeModel::List(x) => lemma_fits_refl(x.types, x.types),
        SingleTypeModel::Function(x) => lemma_funcs_refl(x, x),
        SingleTypeModel::Thread(x) => lemma_fits_refl(x.types, x.types),
        _ => {},
    }
}

proof fn lemma_any_refl(t: SingleTypeModel, rhs: Seq<SingleTypeModel>)
    requires
        plain_single(t),
        plain_singles(rhs),
        rhs.contains(t),
    ensures
        any_fits_spec(t, rhs) == Some(true),
    decreases t, 1nat, rhs.len(),
{
    lemma_single_total(t, rhs[0]);
    if fits_single_spec(t, rhs[0]) == Some(false) {
        if rhs[0] == t {
            lemma_single_refl(t);
        }
        let k = choose|k: int| 0 <= k < rhs.len() && rhs[k] == t;
        assert(rhs.drop_first()[k - 1] == t);
        lemma_any_refl(t, rhs.drop_first());
    }
}

proof fn lemma_fits_refl(s: Seq<SingleTypeModel>, rhs: Seq<SingleTypeModel>)
    requires
        plain_singles(s),
        plain_singles(rhs),
        forall|i: int| 0 <= i < s.len() ==> rhs.contains(#[trigger] s[i]),
    ensures
        fits_spec(s, rhs) == Some(Seq::<SingleTypeModel>::empty()),
    decreases s, 2nat, 0nat,
{
    if s.len() == 0 {
    } else {
        assert(rhs.contains(s[0]));
        lemma_any_refl(s[0], rhs);
        assert forall|i: int| 0 <= i < s.drop_first().len() implies rhs.contains(#[trigger] s.drop_first()[i]) by {
            assert(s.drop_first()[i] == s[i + 1]);
        }
        lemma_fits_refl(s.drop_first(), rhs);
    }
}

proof fn lemma_tuple_refl(x: Seq<TypeModel>)
    requires
        plain_types(x),
    ensures
        tuple_fits_spec(x, x) == Some(true),
    decreases x, 0nat, 0nat,
{
    if x.len() > 0 {
        let s = x[0].types;
        assert forall|i: int| 0 <= i < s.len() implies s.contains(#[trigger] s[i]) by {}
        lemma_fits_refl(s, s);
        lemma_tuple_refl(x.drop_first());
    }
}

proof fn lemma_search_refl(e: (Seq<SingleTypeModel>, TypeModel), y: Seq<(Seq<SingleTypeModel>, TypeModel)>)
    requires
        plain_singles(e.1.types),
        plain_fns(y),
        y.contains(e),
    ensures
        fn_search_spec(e, y) == Some(true),
    decreases e, 1nat, y.len(),
{
    lemma_fits_total(e.1.types, y[0].1.types);
    let no = fits_spec(e.1.types, y[0].1.types)->0;
    if !(no.len() == 0 && crate::script::val_type::args_match(e.0, y[0].0)) {
        if y[0] == e {
            let s = e.1.types;
            assert forall|i: int| 0 <= i < s.len() implies s.contains(#[trigger] s[i]) by {}
            lemma_fits_refl(s, s);
        }
        let k = choose|k: int| 0 <= k < y.len() && y[k] == e;
        assert(y.drop_first()[k - 1] == e);
        lemma_search_refl(e, y.drop_first());
    }
}

proof fn lemma_funcs_refl(x: Seq<(Seq<SingleTypeModel>, TypeModel)>, y: Seq<(Seq<SingleTypeModel>, TypeModel)>)
    requires
        plain_fns(x),
        plain_fns(y),
        forall|i: int| 0 <= i < x.len() ==> y.contains(#[trigger] x[i]),
    ensures
        funcs_fit_spec(x, y) == Some(true),
    decreases x, 0nat, 0nat,
{
    if x.len() > 0 {
        assert(y.contains(x[0]));
        lemma_search_refl(x[0], y);
        assert forall|i: int| 0 <= i < x.drop_first().len() implies y.contains(#[trigger] x.drop_first()[i]) by {
            assert(x.drop_first()[i] == x[i + 1]);
        }
        lemma_funcs_refl(x.drop_first(), y);
    }
}

/// Every type fits in itself: no alternative of it is left out of itself.
pub proof fn law_type_fits_in_itself(s: Seq<SingleTypeModel>)
    requires
        plain_singles(s),
    ensures
        fits_spec(s, s) == Some(Seq::<SingleTypeModel>::empty()),
{
    assert forall|i: int| 0 <= i < s.len() implies s.contains(#[trigger] s[i]) by {}
    lemma_fits_refl(s, s);
}

/// Every single type fits in itself.
pub proof fn law_single_fits_in_itself(a: SingleTypeModel)
    requires
        plain_single(a),
    ensures
        fits_single_spec(a, a) == Some(true),
{
    lemma_single_refl(a);
}

/// On types without named enum variants, checking which alternatives fit
/// always finishes, so `VType::fits_in` can always be called on them.
pub proof fn law_fits_finishes(s: Seq<SingleTypeModel>, rhs: Seq<SingleTypeModel>)
    requires
        plain_singles(s),
        plain_singles(rhs),
    ensures
        fits_spec(s, rhs) is Some,
{
    lemma_fits_total(s, rhs);
}

/// A single type that is one of the alternatives of a type fits in that
/// type.
pub proof fn law_member_fits(x: SingleTypeModel, t: Seq<SingleTypeModel>)
    requires
        plain_single(x),
        plain_singles(t),
        t.contains(x),
    ensures
        fits_spec(seq![x], t) == Some(Seq::<SingleTypeModel>::empty()),
{
    let s = seq![x];
    assert(plain_singles(s.drop_first())) by {
        assert(s.drop_first().len() == 0);
    }
    assert forall|i: int| 0 <= i < s.len() implies t.contains(#[trigger] s[i]) by {}
    lemma_fits_refl(s, t);
}

/// `t` fits in at least one alternative of `rhs`.
pub open spec fn fits_somewhere(t: SingleTypeModel, rhs: Seq<SingleTypeModel>) -> bool {
    exists|j: int| 0 <= j < rhs.len() && #[trigger] fits_single_spec(t, rhs[j]) == Some(true)
}

proof fn lemma_any_is_somewhere(t: SingleTypeModel, rhs: Seq<SingleTypeModel>)
    requires
        plain_single(t),
        plain_singles(rhs),
    ensures
        any_fits_spec(t, rhs) == Some(fits_somewhere(t, rhs)),
    decreases rhs.len(),
{
    if rhs.len() > 0 {
        lemma_single_total(t, rhs[0]);
        lemma_any_is_somewhere(t, rhs.drop_first());
        if fits_single_spec(t, rhs[0]) == Some(true) {
            assert(fits_single_spec(t, rhs[0]) == Some(true));
        } else {
            if fits_somewhere(t, rhs) {
                let j = choose|j: int| 0 <= j < rhs.len() && #[trigger] fits_single_spec(t, rhs[j]) == Some(true);
                assert(j > 0);
                assert(rhs.drop_first()[j - 1] == rhs[j]);
                assert(fits_somewhere(t, rhs.drop_first()));
            }
            if fits_somewhere(t, rhs.drop_first()) {
                let j = choose|j: int| 0 <= j < rhs.drop_first().len() && #[trigger] fits_single_spec(t, rhs.drop_first()[j]) == Some(true);
                assert(rhs[j + 1] == rhs.drop_first()[j]);
                assert(fits_single_spec(t, rhs[j + 1]) == Some(true));
            }
        }
    } else {
        assert(!fits_somewhere(t, rhs));
    }
}

/// What `VType::fits_in` gives is the alternatives of the left type that fit
/// in no alternative of the right type, in their order: its documented
/// filter.
pub proof fn law_fits_in_is_filter(s: Seq<SingleTypeModel>, rhs: Seq<SingleTypeModel>)
    requires
        plain_singles(s),
        plain_singles(rhs),
    ensures
        fits_spec(s, rhs) == Some(s.filter(|t: SingleTypeModel| !fits_somewhere(t, rhs))),
    decreases s.len(),
{
    let pred = |t: SingleTypeModel| !fits_somewhere(t, rhs);
    if s.len() == 0 {
        assert(s.filter(pred) =~= s) by {
            reveal_with_fuel(Seq::filter, 1);
        }
    } else {
        lemma_any_is_somewhere(s[0], rhs);
        law_fits_in_is_filter(s.drop_first(), rhs);
        assert(s =~= seq![s[0]] + s.drop_first());
        Seq::filter_distributes_over_add(seq![s[0]], s.drop_first(), pred);
        assert(seq![s[0]].drop_last() =~= Seq::<SingleTypeModel>::empty());
        reveal_with_fuel(Seq::filter, 2);
        if fits_somewhere(s[0], rhs) {
            assert(seq![s[0]].filter(pred) =~= Seq::<SingleTypeModel>::empty());
        } else {
            assert(seq![s[0]].filter(pred) =~= seq![s[0]]);
        }
    }
}


/// The alternatives of a type all fit in `rhs` (the check finishing with
/// nothing left over) exactly when each alternative on its own fits in it.
pub proof fn lemma_all_alternatives_fit(s: Seq<SingleTypeModel>, rhs: Seq<SingleTypeModel>)
    ensures
        fits_spec(s, rhs) == Some(Seq::<SingleTypeModel>::empty())
            <==> forall|i: int| 0 <= i < s.len() ==> #[trigger] any_fits_spec(s[i], rhs) == Some(true),
    decreases s.len(),
{
    if s.len() > 0 {
        let d = s.drop_first();
        lemma_all_alternatives_fit(d, rhs);
        if forall|i: int| 0 <= i < s.len() ==> #[trigger] any_fits_spec(s[i], rhs) == Some(true) {
            assert(any_fits_spec(s[0], rhs) == Some(true));
            assert forall|i: int| 0 <= i < d.len() implies #[trigger] any_fits_spec(d[i], rhs) == Some(true) by {
                assert(d[i] == s[i + 1]);
                assert(any_fits_spec(s[i + 1], rhs) == Some(true));
            }
        } else {
            let i = choose|i: int| 0 <= i < s.len() && !(#[trigger] any_fits_spec(s[i], rhs) == Some(true));
            if i > 0 {
                assert(d[i - 1] == s[i]);
                assert(!(any_fits_spec(d[i - 1], rhs) == Some(true)));
            }
            match any_fits_spec(s[0], rhs) {
                Some(f) => match fits_spec(d, rhs) {
                    Some(rest) => if !f {
                        assert((seq![s[0]] + rest).len() > 0);
                    },
                    None => {},
                },
                None => {},
            }
        }
    }
}

/// A list type fits in a list type exactly when every alternative of its
/// elements fits in the other's element type: `[int/string ...]` does not
/// fit where `[int ...]` is expected. The same holds of threads, and a
/// reference fits in a reference exactly when what it points to fits.
pub proof fn law_containers_fit(x: TypeModel, y: TypeModel, a: SingleTypeModel, b: SingleTypeModel)
    ensures
        fits_single_spec(SingleTypeModel::List(x), SingleTypeModel::List(y)) == Some(true)
            <==> forall|i: int| 0 <= i < x.types.len() ==> #[trigger] any_fits_spec(x.types[i], y.types) == Some(true),
        fits_single_spec(SingleTypeModel::Thread(x), SingleTypeModel::Thread(y)) == Some(true)
            <==> forall|i: int| 0 <= i < x.types.len() ==> #[trigger] any_fits_spec(x.types[i], y.types) == Some(true),
        fits_single_spec(SingleTypeModel::Reference(Box::new(a)), SingleTypeModel::Reference(Box::new(b)))
            == fits_single_spec(a, b),
        fits_single_spec(SingleTypeModel::List(x), SingleTypeModel::Tuple(Seq::empty())) == Some(false),
{
    lemma_all_alternatives_fit(x.types, y.types);
    match fits_spec(x.types, y.types) {
        Some(no) => {
            if no.len() == 0 {
                assert(no =~= Seq::<SingleTypeModel>::empty());
            }
        },
        None => {},
    }
}

} // verus!
