//! Whether a value of one type is accepted where another type is expected,
//! custom types included.
//!
//! A custom type stands for its definition, which may name custom types
//! again, even itself. Each unfolding of a custom type uses one unit of
//! `fuel`; the specifications return `None` when the fuel runs out, and also
//! where the check stops for good (an index past the known custom types, or a
//! name that was never resolved). The check on given types finishes exactly
//! when some fuel gives `Some`.
use vstd::prelude::*;
use crate::lang::type_model::{SingleTypeModel, TypeModel, fns_model, singles_model, types_model};
use crate::lang::val_type::{VSingleType, VType, singles_eq};
use crate::lang::global_info::GlobalScriptInfo;

verus! {

broadcast use crate::lang::type_model::group_model_lemmas;

/// `Some(no.len() == 0)` for `Some(no)`.
pub open spec fn all_fit(r: Option<Seq<SingleTypeModel>>) -> Option<bool> {
    match r {
        Some(no) => Some(no.len() == 0),
        None => None,
    }
}

/// Whether a value of single type `a` is accepted where `b` is expected.
/// The cases are tried in the order the definition lists them.
pub open spec fn fits_single_f(ct: Seq<TypeModel>, a: SingleTypeModel, b: SingleTypeModel, fuel: nat) -> Option<bool>
    decreases fuel, a, 0nat, 0nat,
{
    match (a, b) {
        (SingleTypeModel::Reference(r), SingleTypeModel::Reference(q)) => fits_single_f(ct, *r, *q, fuel),
        (SingleTypeModel::Reference(_), _) => Some(false),
        (_, SingleTypeModel::Reference(_)) => Some(false),
        (SingleTypeModel::EnumVariant(v1, t1), SingleTypeModel::EnumVariant(v2, t2)) => if v1 == v2 {
            all_fit(fits_f(ct, t1.types, t2.types, fuel))
        } else {
            Some(false)
        },
        (SingleTypeModel::CustomType(x), SingleTypeModel::CustomType(y)) => Some(x == y),
        (SingleTypeModel::CustomType(x), _) => if fuel == 0 || x >= ct.len() {
            None
        } else {
            all_fit(fits_f(ct, ct[x as int].types, seq![b], (fuel - 1) as nat))
        },
        (_, SingleTypeModel::CustomType(y)) => if fuel == 0 || y >= ct.len() {
            None
        } else {
            all_fit(fits_f(ct, seq![a], ct[y as int].types, (fuel - 1) as nat))
        },
        (SingleTypeModel::CustomTypeS(_), _) => None,
        (_, SingleTypeModel::CustomTypeS(_)) => None,
        (SingleTypeModel::EnumVariant(..), _) => Some(false),
        (_, SingleTypeModel::EnumVariant(..)) => Some(false),
        (SingleTypeModel::EnumVariantS(..), _) => None,
        (_, SingleTypeModel::EnumVariantS(..)) => None,
        (SingleTypeModel::Bool, SingleTypeModel::Bool) => Some(true),
        (SingleTypeModel::Int, SingleTypeModel::Int) => Some(true),
        (SingleTypeModel::Float, SingleTypeModel::Float) => Some(true),
        (SingleTypeModel::String, SingleTypeModel::String) => Some(true),
        (SingleTypeModel::Bool, _) => Some(false),
        (SingleTypeModel::Int, _) => Some(false),
        (SingleTypeModel::Float, _) => Some(false),
        (SingleTypeModel::String, _) => Some(false),
        (SingleTypeModel::Tuple(x), SingleTypeModel::Tuple(y)) => if x.len() == y.len() {
            tuple_fits_f(ct, x, y, fuel)
        } else {
            Some(false)
        },
        (SingleTypeModel::Tuple(_), _) => Some(false),
        (SingleTypeModel::List(x), SingleTypeModel::List(y)) => all_fit(fits_f(ct, x.types, y.types, fuel)),
        (SingleTypeModel::List(_), _) => Some(false),
        (SingleTypeModel::Function(x), SingleTypeModel::Function(y)) => funcs_fit_f(ct, x, y, fuel),
        (SingleTypeModel::Function(_), _) => Some(false),
        (SingleTypeModel::Thread(x), SingleTypeModel::Thread(y)) => all_fit(fits_f(ct, x.types, y.types, fuel)),
        (SingleTypeModel::Thread(_), _) => Some(false),
    }
}

/// Whether single type `t` fits in type `rhs`: a custom type fits where the
/// same custom type is one of the alternatives, or where its definition fits;
/// any other type fits when it fits in one of the alternatives, tried from the
/// left.
pub open spec fn any_fits_f(ct: Seq<TypeModel>, t: SingleTypeModel, rhs: Seq<SingleTypeModel>, fuel: nat) -> Option<bool>
    decreases fuel, t, 1nat, rhs.len(),
{
    match t {
        SingleTypeModel::CustomType(x) => if rhs.contains(SingleTypeModel::CustomType(x)) {
            Some(true)
        } else if fuel == 0 || x >= ct.len() {
            None
        } else {
            all_fit(fits_f(ct, ct[x as int].types, rhs, (fuel - 1) as nat))
        },
        _ => if rhs.len() == 0 {
            Some(false)
        } else {
            match fits_single_f(ct, t, rhs[0], fuel) {
                None => None,
                Some(true) => Some(true),
                Some(false) => any_fits_f(ct, t, rhs.drop_first(), fuel),
            }
        },
    }
}

/// The alternatives of `s` that do not fit in `rhs`, in order.
pub open spec fn fits_f(ct: Seq<TypeModel>, s: Seq<SingleTypeModel>, rhs: Seq<SingleTypeModel>, fuel: nat) -> Option<Seq<SingleTypeModel>>
    decreases fuel, s, 2nat, 0nat,
{
    if s.len() == 0 {
        Some(Seq::empty())
    } else {
        match any_fits_f(ct, s[0], rhs, fuel) {
            None => None,
            Some(f) => match fits_f(ct, s.drop_first(), rhs, fuel) {
                None => None,
                Some(rest) => Some(if f { rest } else { seq![s[0]] + rest }),
            },
        }
    }
}

/// Whether every value of tuple `x` fits in the value of `y` at the same
/// position, checked from the left.
pub open spec fn tuple_fits_f(ct: Seq<TypeModel>, x: Seq<TypeModel>, y: Seq<TypeModel>, fuel: nat) -> Option<bool>
    decreases fuel, x, 0nat, 0nat,
{
    if x.len() == 0 || y.len() == 0 {
        Some(true)
    } else {
        match fits_f(ct, x[0].types, y[0].types, fuel) {
            None => None,
            Some(no) => if no.len() == 0 {
                tuple_fits_f(ct, x.drop_first(), y.drop_first(), fuel)
            } else {
                Some(false)
            },
        }
    }
}

/// Whether some variant of `y` covers variant `e`: its output fits in that
/// variant's output and both take the same arguments.
pub open spec fn fn_search_f(ct: Seq<TypeModel>, e: (Seq<SingleTypeModel>, TypeModel), y: Seq<(Seq<SingleTypeModel>, TypeModel)>, fuel: nat) -> Option<bool>
    decreases fuel, e, 1nat, y.len(),
{
    if y.len() == 0 {
        Some(false)
    } else {
        match fits_f(ct, e.1.types, y[0].1.types, fuel) {
            None => None,
            Some(no) => if no.len() == 0 && e.0 == y[0].0 {
                Some(true)
            } else {
                fn_search_f(ct, e, y.drop_first(), fuel)
            },
        }
    }
}

/// Whether every variant of function type `x` is covered by a variant of `y`.
pub open spec fn funcs_fit_f(ct: Seq<TypeModel>, x: Seq<(Seq<SingleTypeModel>, TypeModel)>, y: Seq<(Seq<SingleTypeModel>, TypeModel)>, fuel: nat) -> Option<bool>
    decreases fuel, x, 0nat, 0nat,
{
    if x.len() == 0 {
        Some(true)
    } else {
        match fn_search_f(ct, x[0], y, fuel) {
            None => None,
            Some(false) => Some(false),
            Some(true) => funcs_fit_f(ct, x.drop_first(), y, fuel),
        }
    }
}

fn tuple_fits_x(a: &Vec<VType>, b: &Vec<VType>, ct: &Vec<VType>, Ghost(fuel): Ghost<nat>) -> (r: bool)
    requires
        a@.len() == b@.len(),
        tuple_fits_f(types_model(ct@), types_model(a@), types_model(b@), fuel) is Some,
    ensures
        Some(r) == tuple_fits_f(types_model(ct@), types_model(a@), types_model(b@), fuel),
    decreases fuel, a, 0nat, 0nat,
{
    let ghost cm = types_model(ct@);
    let ghost am = types_model(a@);
    let ghost bm = types_model(b@);
    let mut k: usize = 0;
    assert(am.skip(0) =~= am);
    assert(bm.skip(0) =~= bm);
    while k < a.len()
        invariant
            cm == types_model(ct@),
            am == types_model(a@),
            bm == types_model(b@),
            am.len() == a@.len(),
            bm.len() == b@.len(),
            a@.len() == b@.len(),
            k <= a@.len(),
            tuple_fits_f(cm, am, bm, fuel) is Some,
            tuple_fits_f(cm, am.skip(k as int), bm.skip(k as int), fuel) == tuple_fits_f(cm, am, bm, fuel),
        decreases a@.len() - k,
    {
        proof {
            assert(decreases_to!(a => a@));
            assert(decreases_to!(a@ => a@[k as int]));
            assert(am.skip(k as int)[0] == am[k as int]);
            assert(bm.skip(k as int)[0] == bm[k as int]);
            assert(am.skip(k as int).drop_first() =~= am.skip(k + 1));
            assert(bm.skip(k as int).drop_first() =~= bm.skip(k + 1));
            assert(am[k as int] == a@[k as int].model());
            assert(bm[k as int] == b@[k as int].model());
        }
        let no = fits_x(&a[k], &b[k], ct, Ghost(fuel));
        if no.len() != 0 {
            return false;
        }
        k += 1;
    }
    true
}

fn funcs_fit_x(a: &Vec<(Vec<VSingleType>, VType)>, b: &Vec<(Vec<VSingleType>, VType)>, ct: &Vec<VType>, Ghost(fuel): Ghost<nat>) -> (r: bool)
    requires
        funcs_fit_f(types_model(ct@), fns_model(a@), fns_model(b@), fuel) is Some,
    ensures
        Some(r) == funcs_fit_f(types_model(ct@), fns_model(a@), fns_model(b@), fuel),
    decreases fuel, a, 0nat, 0nat,
{
    let ghost cm = types_model(ct@);
    let ghost am = fns_model(a@);
    let ghost bm = fns_model(b@);
    let mut k: usize = 0;
    assert(am.skip(0) =~= am);
    while k < a.len()
        invariant
            cm == types_model(ct@),
            am == fns_model(a@),
            bm == fns_model(b@),
            am.len() == a@.len(),
            bm.len() == b@.len(),
            k <= a@.len(),
            funcs_fit_f(cm, am, bm, fuel) is Some,
            funcs_fit_f(cm, am.skip(k as int), bm, fuel) == funcs_fit_f(cm, am, bm, fuel),
        decreases a@.len() - k,
    {
        let ghost e = am[k as int];
        proof {
            assert(am.skip(k as int)[0] == e);
            assert(am.skip(k as int).drop_first() =~= am.skip(k + 1));
            assert(e == (singles_model(a@[k as int].0@), a@[k as int].1.model()));
            assert(bm.skip(0) =~= bm);
        }
        let mut j: usize = 0;
        let mut found = false;
        proof { assert(bm.skip(b@.len() as int) =~= Seq::<(Seq<SingleTypeModel>, TypeModel)>::empty()); }
        while j < b.len()
            invariant_except_break
                !found,
            invariant
                cm == types_model(ct@),
                am == fns_model(a@),
                bm == fns_model(b@),
                am.len() == a@.len(),
                bm.len() == b@.len(),
                k < a@.len(),
                e == am[k as int],
                e == (singles_model(a@[k as int].0@), a@[k as int].1.model()),
                j <= b@.len(),
                fn_search_f(cm, e, bm, fuel) is Some,
                fn_search_f(cm, e, bm.skip(j as int), fuel) == fn_search_f(cm, e, bm, fuel),
            ensures
                found ==> fn_search_f(cm, e, bm, fuel) == Some(true),
                !found ==> fn_search_f(cm, e, bm, fuel) == Some(false),
            decreases b@.len() - j,
        {
            proof {
                assert(decreases_to!(a => a@));
                assert(decreases_to!(a@ => a@[k as int]));
                assert(decreases_to!(a@[k as int] => a@[k as int].1));
                assert(bm.skip(j as int)[0] == bm[j as int]);
                assert(bm.skip(j as int).drop_first() =~= bm.skip(j + 1));
                assert(bm[j as int] == (singles_model(b@[j as int].0@), b@[j as int].1.model()));
            }
            let no = fits_x(&a[k].1, &b[j].1, ct, Ghost(fuel));
            if no.len() == 0 && singles_eq(&a[k].0, &b[j].0) {
                found = true;
                break;
            }
            j += 1;
        }
        if !found {
            proof {
                assert(funcs_fit_f(cm, am.skip(k as int), bm, fuel) == Some(false));
            }
            return false;
        }
        k += 1;
    }
    true
}

fn fits_single_x(a: &VSingleType, b: &VSingleType, ct: &Vec<VType>, Ghost(fuel): Ghost<nat>) -> (r: bool)
    requires
        fits_single_f(types_model(ct@), a.model(), b.model(), fuel) is Some,
    ensures
        Some(r) == fits_single_f(types_model(ct@), a.model(), b.model(), fuel),
    decreases fuel, a, 0nat, 0nat,
{
    let ghost cm = types_model(ct@);
    match (a, b) {
        (VSingleType::Reference(r), VSingleType::Reference(q)) => fits_single_x(r, q, ct, Ghost(fuel)),
        (VSingleType::Reference(_), _) | (_, VSingleType::Reference(_)) => false,
        (VSingleType::EnumVariant(v1, t1), VSingleType::EnumVariant(v2, t2)) => {
            *v1 == *v2 && fits_x(t1, t2, ct, Ghost(fuel)).len() == 0
        },
        (VSingleType::CustomType(x), VSingleType::CustomType(y)) => *x == *y,
        (VSingleType::CustomType(x), _) => {
            assert(cm[*x as int] == ct@[*x as int].model());
            let bt = b.deep_clone().to();
            fits_x(&ct[*x], &bt, ct, Ghost((fuel - 1) as nat)).len() == 0
        },
        (_, VSingleType::CustomType(y)) => {
            assert(cm[*y as int] == ct@[*y as int].model());
            let at = a.deep_clone().to();
            fits_x(&at, &ct[*y], ct, Ghost((fuel - 1) as nat)).len() == 0
        },
        (VSingleType::CustomTypeS(_), _) | (_, VSingleType::CustomTypeS(_)) => {
            assert(false);
            false
        },
        (VSingleType::EnumVariant(..), _) | (_, VSingleType::EnumVariant(..)) => false,
        (VSingleType::EnumVariantS(..), _) | (_, VSingleType::EnumVariantS(..)) => {
            assert(false);
            false
        },
        (VSingleType::Bool, VSingleType::Bool)
        | (VSingleType::Int, VSingleType::Int)
        | (VSingleType::Float, VSingleType::Float)
        | (VSingleType::String, VSingleType::String) => true,
        (VSingleType::Bool | VSingleType::Int | VSingleType::Float | VSingleType::String, _) => false,
        (VSingleType::Tuple(x), VSingleType::Tuple(y)) => {
            if x.len() == y.len() {
                tuple_fits_x(x, y, ct, Ghost(fuel))
            } else {
                false
            }
        },
        (VSingleType::Tuple(_), _) => false,
        (VSingleType::List(x), VSingleType::List(y)) => fits_x(x, y, ct, Ghost(fuel)).len() == 0,
        (VSingleType::List(_), _) => false,
        (VSingleType::Function(x), VSingleType::Function(y)) => funcs_fit_x(x, y, ct, Ghost(fuel)),
        (VSingleType::Function(..), _) => false,
        (VSingleType::Thread(x), VSingleType::Thread(y)) => fits_x(x, y, ct, Ghost(fuel)).len() == 0,
        (VSingleType::Thread(..), _) => false,
    }
}

fn any_fits_x(t: &VSingleType, rhs: &VType, ct: &Vec<VType>, Ghost(fuel): Ghost<nat>) -> (r: bool)
    requires
        any_fits_f(types_model(ct@), t.model(), rhs.model().types, fuel) is Some,
    ensures
        Some(r) == any_fits_f(types_model(ct@), t.model(), rhs.model().types, fuel),
    decreases fuel, t, 1nat, 0nat,
{
    let ghost cm = types_model(ct@);
    let ghost rm = rhs.model().types;
    assert(rm == singles_model(rhs.types@));
    match t {
        VSingleType::CustomType(x) => {
            let mut j: usize = 0;
            while j < rhs.types.len()
                invariant
                    rm == singles_model(rhs.types@),
                    rm == rhs.model().types,
                    t.model() == SingleTypeModel::CustomType(*x),
                    rm.len() == rhs.types@.len(),
                    j <= rhs.types@.len(),
                    forall|i: int| 0 <= i < j ==> rm[i] != SingleTypeModel::CustomType(*x),
                decreases rhs.types@.len() - j,
            {
                match &rhs.types[j] {
                    VSingleType::CustomType(y) => {
                        if *y == *x {
                            assert(rm[j as int] == SingleTypeModel::CustomType(*x));
                            assert(rm.contains(SingleTypeModel::CustomType(*x)));
                            return true;
                        }
                    },
                    _ => {},
                }
                assert(rm[j as int] == rhs.types@[j as int].model());
                j += 1;
            }
            assert(!rm.contains(SingleTypeModel::CustomType(*x)));
            assert(cm[*x as int] == ct@[*x as int].model());
            fits_x(&ct[*x], rhs, ct, Ghost((fuel - 1) as nat)).len() == 0
        },
        _ => {
            let mut j: usize = 0;
            assert(rm.skip(0) =~= rm);
            proof { assert(rm.skip(rm.len() as int) =~= Seq::<SingleTypeModel>::empty()); }
            while j < rhs.types.len()
                invariant
                    !(t.model() is CustomType),
                    cm == types_model(ct@),
                    rm == singles_model(rhs.types@),
                    rm.len() == rhs.types@.len(),
                    j <= rhs.types@.len(),
                    any_fits_f(cm, t.model(), rm, fuel) is Some,
                    any_fits_f(cm, t.model(), rm.skip(j as int), fuel) == any_fits_f(cm, t.model(), rm, fuel),
                decreases rhs.types@.len() - j,
            {
                proof {
                    assert(rm.skip(j as int)[0] == rm[j as int]);
                    assert(rm.skip(j as int).drop_first() =~= rm.skip(j + 1));
                    assert(rm[j as int] == rhs.types@[j as int].model());
                }
                if fits_single_x(t, &rhs.types[j], ct, Ghost(fuel)) {
                    return true;
                }
                j += 1;
            }
            false
        },
    }
}

fn fits_x(s: &VType, rhs: &VType, ct: &Vec<VType>, Ghost(fuel): Ghost<nat>) -> (r: Vec<VSingleType>)
    requires
        fits_f(types_model(ct@), s.model().types, rhs.model().types, fuel) is Some,
    ensures
        Some(singles_model(r@)) == fits_f(types_model(ct@), s.model().types, rhs.model().types, fuel),
    decreases fuel, s, 2nat, 0nat,
{
    let ghost cm = types_model(ct@);
    let ghost sm = s.model().types;
    let ghost rm = rhs.model().types;
    assert(sm == singles_model(s.types@));
    let mut no: Vec<VSingleType> = Vec::new();
    let mut i: usize = 0;
    assert(sm.skip(0) =~= sm);
    assert(singles_model(no@) =~= Seq::<SingleTypeModel>::empty());
    assert(Seq::<SingleTypeModel>::empty() + fits_f(cm, sm, rm, fuel).unwrap() =~= fits_f(cm, sm, rm, fuel).unwrap());
    while i < s.types.len()
        invariant
            cm == types_model(ct@),
            sm == singles_model(s.types@),
            rm == rhs.model().types,
            sm.len() == s.types@.len(),
            i <= s.types@.len(),
            fits_f(cm, sm.skip(i as int), rm, fuel) is Some,
            fits_f(cm, sm, rm, fuel) == Some(singles_model(no@) + fits_f(cm, sm.skip(i as int), rm, fuel).unwrap()),
        decreases s.types@.len() - i,
    {
        let ghost t = sm[i as int];
        proof {
            assert(sm.skip(i as int)[0] == t);
            assert(sm.skip(i as int).drop_first() =~= sm.skip(i + 1));
            assert(t == s.types@[i as int].model());
            assert(decreases_to!(s => s.types));
            assert(decreases_to!(s.types => s.types@));
            assert(decreases_to!(s.types@ => s.types@[i as int]));
        }
        let fits = any_fits_x(&s.types[i], rhs, ct, Ghost(fuel));
        let ghost pre = singles_model(no@);
        if !fits {
            no.push(s.types[i].deep_clone());
            assert(singles_model(no@) =~= pre.push(t));
            assert(pre.push(t) + fits_f(cm, sm.skip(i + 1), rm, fuel).unwrap() =~= pre + (seq![t] + fits_f(cm, sm.skip(i + 1), rm, fuel).unwrap()));
        }
        i += 1;
    }
    assert(sm.skip(i as int) =~= Seq::<SingleTypeModel>::empty());
    assert(singles_model(no@) + Seq::<SingleTypeModel>::empty() =~= singles_model(no@));
    no
}

/// [`fits_single_f`] at a fuel where it finishes, `None` when there is none.
pub open spec fn single_fits(ct: Seq<TypeModel>, a: SingleTypeModel, b: SingleTypeModel) -> Option<bool> {
    fits_single_f(ct, a, b, choose|f: nat| fits_single_f(ct, a, b, f) is Some)
}

/// [`any_fits_f`] at a fuel where it finishes, `None` when there is none.
pub open spec fn fits_in_type_spec(ct: Seq<TypeModel>, t: SingleTypeModel, rhs: Seq<SingleTypeModel>) -> Option<bool> {
    any_fits_f(ct, t, rhs, choose|f: nat| any_fits_f(ct, t, rhs, f) is Some)
}

/// [`fits_f`] at a fuel where it finishes, `None` when there is none.
pub open spec fn type_fits(ct: Seq<TypeModel>, s: Seq<SingleTypeModel>, rhs: Seq<SingleTypeModel>) -> Option<Seq<SingleTypeModel>> {
    fits_f(ct, s, rhs, choose|f: nat| fits_f(ct, s, rhs, f) is Some)
}

impl VSingleType {
    /// Whether a value of this type is accepted where `rhs` is expected.
    pub fn fits_in(&self, rhs: &Self, info: &GlobalScriptInfo) -> (r: bool)
        requires
            single_fits(info.custom(), self.model(), rhs.model()) is Some,
        ensures
            Some(r) == single_fits(info.custom(), self.model(), rhs.model()),
    {
        let ghost f = choose|f: nat| fits_single_f(info.custom(), self.model(), rhs.model(), f) is Some;
        fits_single_x(self, rhs, &info.custom_types, Ghost(f))
    }

    /// Whether a value of this type is accepted where a value of type `rhs`
    /// is expected.
    pub fn fits_in_type(&self, rhs: &VType, info: &GlobalScriptInfo) -> (r: bool)
        requires
            fits_in_type_spec(info.custom(), self.model(), rhs.model().types) is Some,
        ensures
            Some(r) == fits_in_type_spec(info.custom(), self.model(), rhs.model().types),
    {
        let ghost f = choose|f: nat| any_fits_f(info.custom(), self.model(), rhs.model().types, f) is Some;
        any_fits_x(self, rhs, &info.custom_types, Ghost(f))
    }
}

impl VType {
    /// The alternatives of `self` that are not accepted where `rhs` is
    /// expected, in order; empty when every value of `self` fits in `rhs`.
    pub fn fits_in(&self, rhs: &Self, info: &GlobalScriptInfo) -> (r: Vec<VSingleType>)
        requires
            type_fits(info.custom(), self.model().types, rhs.model().types) is Some,
        ensures
            Some(singles_model(r@)) == type_fits(info.custom(), self.model().types, rhs.model().types),
    {
        let ghost f = choose|f: nat| fits_f(info.custom(), self.model().types, rhs.model().types, f) is Some;
        fits_x(self, rhs, &info.custom_types, Ghost(f))
    }

    /// Whether a value of type `t` is accepted where `self` is expected.
    pub fn contains(&self, t: &VSingleType, info: &GlobalScriptInfo) -> (r: bool)
        requires
            fits_in_type_spec(info.custom(), t.model(), self.model().types) is Some,
        ensures
            Some(r) == fits_in_type_spec(info.custom(), t.model(), self.model().types),
    {
        t.fits_in_type(self, info)
    }
}

} // verus!
