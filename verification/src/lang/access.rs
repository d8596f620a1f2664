//! What reading an element of a value of some type can give, custom types included.
//!
//! As with [`crate::lang::fits`], each unfolding of a custom type uses one unit of
//! `fuel`. The outer `Option` of the specifications is `None` where the
//! computation does not finish within the fuel or stops for good; the inner
//! `Option` is `None` where the type has no elements to read.
use vstd::prelude::*;
use crate::lang::type_model::{SingleTypeModel, TypeModel, singles_model, types_model};
use crate::lang::val_type::{VSingleType, VType, reference_spec, tuple_inner_spec};
use crate::lang::global_info::GlobalScriptInfo;
use crate::ordered_union::add_all;

verus! {

broadcast use crate::lang::type_model::group_model_lemmas;

/// Each value of a tuple wrapped in references, joined as an ordered union.
pub open spec fn tuple_any_ref_spec(v: Seq<TypeModel>) -> Seq<SingleTypeModel>
    decreases v.len(),
{
    if v.len() == 0 {
        Seq::empty()
    } else {
        add_all(tuple_any_ref_spec(v.drop_last()), reference_spec(v.last().types))
    }
}

/// The types an element of a value of single type `t` can have.
pub open spec fn get_any_single_f(ct: Seq<TypeModel>, t: SingleTypeModel, fuel: nat) -> Option<Option<Seq<SingleTypeModel>>>
    decreases fuel, t, 0nat,
{
    match t {
        SingleTypeModel::String => Some(Some(seq![SingleTypeModel::String])),
        SingleTypeModel::Tuple(v) => Some(Some(tuple_inner_spec(v))),
        SingleTypeModel::List(x) => Some(Some(x.types)),
        SingleTypeModel::Reference(r) => get_any_ref_single_f(ct, *r, fuel),
        SingleTypeModel::EnumVariant(_, x) => get_any_from_f(ct, x.types, Seq::empty(), fuel),
        SingleTypeModel::EnumVariantS(..) => None,
        SingleTypeModel::CustomType(x) => if fuel == 0 || x >= ct.len() {
            None
        } else {
            get_any_from_f(ct, ct[x as int].types, Seq::empty(), (fuel - 1) as nat)
        },
        SingleTypeModel::CustomTypeS(_) => None,
        _ => Some(None),
    }
}

/// The types an element reached through a reference to a value of single
/// type `t` can have: references to the element types.
pub open spec fn get_any_ref_single_f(ct: Seq<TypeModel>, t: SingleTypeModel, fuel: nat) -> Option<Option<Seq<SingleTypeModel>>>
    decreases fuel, t, 0nat,
{
    match t {
        SingleTypeModel::String => Some(Some(seq![SingleTypeModel::String])),
        SingleTypeModel::Tuple(v) => Some(Some(tuple_any_ref_spec(v))),
        SingleTypeModel::List(x) => Some(Some(reference_spec(x.types))),
        SingleTypeModel::Reference(r) => get_any_ref_single_f(ct, *r, fuel),
        SingleTypeModel::EnumVariant(_, x) => get_any_ref_from_f(ct, x.types, Seq::empty(), fuel),
        SingleTypeModel::EnumVariantS(..) => None,
        SingleTypeModel::CustomType(x) => if fuel == 0 || x >= ct.len() {
            None
        } else {
            get_any_from_f(ct, ct[x as int].types, Seq::empty(), (fuel - 1) as nat)
        },
        SingleTypeModel::CustomTypeS(_) => None,
        _ => Some(None),
    }
}

/// [`get_any_single_f`] of the alternatives of `s` from the left, joined to
/// `acc` as an ordered union, stopping at the first without elements.
pub open spec fn get_any_from_f(ct: Seq<TypeModel>, s: Seq<SingleTypeModel>, acc: Seq<SingleTypeModel>, fuel: nat) -> Option<Option<Seq<SingleTypeModel>>>
    decreases fuel, s, 1nat,
{
    if s.len() == 0 {
        Some(Some(acc))
    } else {
        match get_any_single_f(ct, s[0], fuel) {
            None => None,
            Some(None) => Some(None),
            Some(Some(x)) => get_any_from_f(ct, s.drop_first(), add_all(acc, x), fuel),
        }
    }
}

/// The same with [`get_any_ref_single_f`].
pub open spec fn get_any_ref_from_f(ct: Seq<TypeModel>, s: Seq<SingleTypeModel>, acc: Seq<SingleTypeModel>, fuel: nat) -> Option<Option<Seq<SingleTypeModel>>>
    decreases fuel, s, 1nat,
{
    if s.len() == 0 {
        Some(Some(acc))
    } else {
        match get_any_ref_single_f(ct, s[0], fuel) {
            None => None,
            Some(None) => Some(None),
            Some(Some(x)) => get_any_ref_from_f(ct, s.drop_first(), add_all(acc, x), fuel),
        }
    }
}

/// [`get_any_from_f`] from an empty union at a fuel where it finishes.
pub open spec fn get_any_spec(ct: Seq<TypeModel>, s: Seq<SingleTypeModel>) -> Option<Option<Seq<SingleTypeModel>>> {
    get_any_from_f(ct, s, Seq::empty(), choose|f: nat| get_any_from_f(ct, s, Seq::empty(), f) is Some)
}

/// [`get_any_single_f`] at a fuel where it finishes.
pub open spec fn get_any_single_spec(ct: Seq<TypeModel>, t: SingleTypeModel) -> Option<Option<Seq<SingleTypeModel>>> {
    get_any_single_f(ct, t, choose|f: nat| get_any_single_f(ct, t, f) is Some)
}

/// [`get_any_ref_from_f`] from an empty union at a fuel where it finishes.
pub open spec fn get_any_ref_spec(ct: Seq<TypeModel>, s: Seq<SingleTypeModel>) -> Option<Option<Seq<SingleTypeModel>>> {
    get_any_ref_from_f(ct, s, Seq::empty(), choose|f: nat| get_any_ref_from_f(ct, s, Seq::empty(), f) is Some)
}

/// [`get_any_ref_single_f`] at a fuel where it finishes.
pub open spec fn get_any_ref_single_spec(ct: Seq<TypeModel>, t: SingleTypeModel) -> Option<Option<Seq<SingleTypeModel>>> {
    get_any_ref_single_f(ct, t, choose|f: nat| get_any_ref_single_f(ct, t, f) is Some)
}

proof fn lemma_from_step(ct: Seq<TypeModel>, s: Seq<SingleTypeModel>, acc: Seq<SingleTypeModel>, i: int, fuel: nat, r: bool)
    requires
        0 <= i < s.len(),
    ensures
        !r ==> get_any_from_f(ct, s.skip(i), acc, fuel) == match get_any_single_f(ct, s[i], fuel) {
            None => None,
            Some(None) => Some(None),
            Some(Some(x)) => get_any_from_f(ct, s.skip(i + 1), add_all(acc, x), fuel),
        },
        r ==> get_any_ref_from_f(ct, s.skip(i), acc, fuel) == match get_any_ref_single_f(ct, s[i], fuel) {
            None => None,
            Some(None) => Some(None),
            Some(Some(x)) => get_any_ref_from_f(ct, s.skip(i + 1), add_all(acc, x), fuel),
        },
{
    assert(s.skip(i)[0] == s[i]);
    assert(s.skip(i).drop_first() =~= s.skip(i + 1));
}

fn tuple_any(t: &Vec<VType>) -> (r: VType)
    ensures
        r.model().types == tuple_inner_spec(types_model(t@)),
{
    let ghost vm = types_model(t@);
    let mut out = VType::empty();
    let mut i: usize = 0;
    assert(vm.take(0) =~= Seq::<TypeModel>::empty());
    while i < t.len()
        invariant
            i <= t@.len(),
            vm == types_model(t@),
            vm.len() == t@.len(),
            out.model().types == tuple_inner_spec(vm.take(i as int)),
        decreases t@.len() - i,
    {
        assert(vm[i as int] == t@[i as int].model());
        assert(vm.take(i + 1).drop_last() =~= vm.take(i as int));
        out = out.union_ref(&t[i]);
        i += 1;
    }
    assert(vm.take(i as int) =~= vm);
    out
}

fn tuple_any_ref(t: &Vec<VType>) -> (r: VType)
    ensures
        r.model().types == tuple_any_ref_spec(types_model(t@)),
{
    let ghost vm = types_model(t@);
    let mut out = VType::empty();
    let mut i: usize = 0;
    assert(vm.take(0) =~= Seq::<TypeModel>::empty());
    while i < t.len()
        invariant
            i <= t@.len(),
            vm == types_model(t@),
            vm.len() == t@.len(),
            out.model().types == tuple_any_ref_spec(vm.take(i as int)),
        decreases t@.len() - i,
    {
        assert(vm[i as int] == t@[i as int].model());
        assert(vm.take(i + 1).drop_last() =~= vm.take(i as int));
        out = out.union(t[i].reference());
        i += 1;
    }
    assert(vm.take(i as int) =~= vm);
    out
}

fn get_any_single_x(t: &VSingleType, ct: &Vec<VType>, Ghost(fuel): Ghost<nat>) -> (r: Option<VType>)
    requires
        get_any_single_f(types_model(ct@), t.model(), fuel) is Some,
    ensures
        r matches Some(x) ==> get_any_single_f(types_model(ct@), t.model(), fuel) == Some(Some(x.model().types)),
        r is None ==> get_any_single_f(types_model(ct@), t.model(), fuel) == Some(None::<Seq<SingleTypeModel>>),
    decreases fuel, t, 0nat,
{
    match t {
        VSingleType::String => Some(VSingleType::String.to()),
        VSingleType::Tuple(v) => Some(tuple_any(v)),
        VSingleType::List(x) => Some(x.deep_clone()),
        VSingleType::Reference(r) => get_any_ref_single_x(r, ct, Ghost(fuel)),
        VSingleType::EnumVariant(_, x) => get_any_x(x, ct, Ghost(fuel)),
        VSingleType::CustomType(x) => {
            assert(types_model(ct@)[*x as int] == ct@[*x as int].model());
            get_any_x(&ct[*x], ct, Ghost((fuel - 1) as nat))
        },
        VSingleType::EnumVariantS(..) | VSingleType::CustomTypeS(_) => {
            assert(false);
            None
        },
        _ => None,
    }
}

fn get_any_ref_single_x(t: &VSingleType, ct: &Vec<VType>, Ghost(fuel): Ghost<nat>) -> (r: Option<VType>)
    requires
        get_any_ref_single_f(types_model(ct@), t.model(), fuel) is Some,
    ensures
        r matches Some(x) ==> get_any_ref_single_f(types_model(ct@), t.model(), fuel) == Some(Some(x.model().types)),
        r is None ==> get_any_ref_single_f(types_model(ct@), t.model(), fuel) == Some(None::<Seq<SingleTypeModel>>),
    decreases fuel, t, 0nat,
{
    match t {
        VSingleType::String => Some(VSingleType::String.to()),
        VSingleType::Tuple(v) => Some(tuple_any_ref(v)),
        VSingleType::List(x) => Some(x.reference()),
        VSingleType::Reference(r) => get_any_ref_single_x(r, ct, Ghost(fuel)),
        VSingleType::EnumVariant(_, x) => get_any_ref_x(x, ct, Ghost(fuel)),
        VSingleType::CustomType(x) => {
            assert(types_model(ct@)[*x as int] == ct@[*x as int].model());
            get_any_x(&ct[*x], ct, Ghost((fuel - 1) as nat))
        },
        VSingleType::EnumVariantS(..) | VSingleType::CustomTypeS(_) => {
            assert(false);
            None
        },
        _ => None,
    }
}

fn get_any_x(t: &VType, ct: &Vec<VType>, Ghost(fuel): Ghost<nat>) -> (r: Option<VType>)
    requires
        get_any_from_f(types_model(ct@), t.model().types, Seq::empty(), fuel) is Some,
    ensures
        r matches Some(x) ==> get_any_from_f(types_model(ct@), t.model().types, Seq::empty(), fuel) == Some(Some(x.model().types)),
        r is None ==> get_any_from_f(types_model(ct@), t.model().types, Seq::empty(), fuel) == Some(None::<Seq<SingleTypeModel>>),
    decreases fuel, t, 1nat,
{
    let ghost cm = types_model(ct@);
    let ghost s = t.model().types;
    assert(s == singles_model(t.types@));
    let mut out = VType::empty();
    let mut k: usize = 0;
    assert(s.skip(0) =~= s);
    while k < t.types.len()
        invariant
            cm == types_model(ct@),
            k <= t.types@.len(),
            s == singles_model(t.types@),
            s.len() == t.types@.len(),
            get_any_from_f(cm, s, Seq::empty(), fuel) is Some,
            get_any_from_f(cm, s.skip(k as int), out.model().types, fuel) == get_any_from_f(cm, s, Seq::empty(), fuel),
        decreases t.types@.len() - k,
    {
        proof {
            assert(decreases_to!(t => t.types));
            assert(decreases_to!(t.types => t.types@));
            assert(decreases_to!(t.types@ => t.types@[k as int]));
            lemma_from_step(cm, s, out.model().types, k as int, fuel, false);
            assert(s[k as int] == t.types@[k as int].model());
        }
        match get_any_single_x(&t.types[k], ct, Ghost(fuel)) {
            Some(x) => {
                out = out.union(x);
            },
            None => {
                return None;
            },
        }
        k += 1;
    }
    assert(s.skip(k as int) =~= Seq::<SingleTypeModel>::empty());
    Some(out)
}

fn get_any_ref_x(t: &VType, ct: &Vec<VType>, Ghost(fuel): Ghost<nat>) -> (r: Option<VType>)
    requires
        get_any_ref_from_f(types_model(ct@), t.model().types, Seq::empty(), fuel) is Some,
    ensures
        r matches Some(x) ==> get_any_ref_from_f(types_model(ct@), t.model().types, Seq::empty(), fuel) == Some(Some(x.model().types)),
        r is None ==> get_any_ref_from_f(types_model(ct@), t.model().types, Seq::empty(), fuel) == Some(None::<Seq<SingleTypeModel>>),
    decreases fuel, t, 1nat,
{
    let ghost cm = types_model(ct@);
    let ghost s = t.model().types;
    assert(s == singles_model(t.types@));
    let mut out = VType::empty();
    let mut k: usize = 0;
    assert(s.skip(0) =~= s);
    while k < t.types.len()
        invariant
            cm == types_model(ct@),
            k <= t.types@.len(),
            s == singles_model(t.types@),
            s.len() == t.types@.len(),
            get_any_ref_from_f(cm, s, Seq::empty(), fuel) is Some,
            get_any_ref_from_f(cm, s.skip(k as int), out.model().types, fuel) == get_any_ref_from_f(cm, s, Seq::empty(), fuel),
        decreases t.types@.len() - k,
    {
        proof {
            assert(decreases_to!(t => t.types));
            assert(decreases_to!(t.types => t.types@));
            assert(decreases_to!(t.types@ => t.types@[k as int]));
            lemma_from_step(cm, s, out.model().types, k as int, fuel, true);
            assert(s[k as int] == t.types@[k as int].model());
        }
        match get_any_ref_single_x(&t.types[k], ct, Ghost(fuel)) {
            Some(x) => {
                out = out.union(x);
            },
            None => {
                return None;
            },
        }
        k += 1;
    }
    assert(s.skip(k as int) =~= Seq::<SingleTypeModel>::empty());
    Some(out)
}


/// Element `i` of a value of single type `t`. With `always`, only where that
/// element is certain to exist (a tuple); with `by_ref`, reached through a
/// reference, so that the element types are references too.
pub open spec fn get_single_f(ct: Seq<TypeModel>, t: SingleTypeModel, i: usize, always: bool, by_ref: bool, fuel: nat) -> Option<Option<Seq<SingleTypeModel>>>
    decreases fuel, t, 0nat,
{
    match t {
        SingleTypeModel::String => if always { Some(None) } else { Some(Some(seq![SingleTypeModel::String])) },
        SingleTypeModel::List(x) => if always {
            Some(None)
        } else if by_ref {
            Some(Some(reference_spec(x.types)))
        } else {
            Some(Some(x.types))
        },
        SingleTypeModel::Tuple(v) => if i < v.len() {
            if by_ref { Some(Some(reference_spec(v[i as int].types))) } else { Some(Some(v[i as int].types)) }
        } else {
            Some(None)
        },
        SingleTypeModel::Reference(r) => get_single_f(ct, *r, i, always, true, fuel),
        SingleTypeModel::CustomType(x) => if fuel == 0 || x >= ct.len() {
            None
        } else {
            let inner = get_from_f(ct, ct[x as int].types, i, Seq::empty(), always, always && by_ref, (fuel - 1) as nat);
            if !always && by_ref {
                match inner {
                    Some(Some(y)) => Some(Some(reference_spec(y))),
                    _ => inner,
                }
            } else {
                inner
            }
        },
        SingleTypeModel::CustomTypeS(_) => None,
        _ => Some(None),
    }
}

/// [`get_single_f`] of the alternatives of `s` from the left, joined to `acc`
/// as an ordered union, stopping at the first that has no such element.
pub open spec fn get_from_f(ct: Seq<TypeModel>, s: Seq<SingleTypeModel>, i: usize, acc: Seq<SingleTypeModel>, always: bool, by_ref: bool, fuel: nat) -> Option<Option<Seq<SingleTypeModel>>>
    decreases fuel, s, 1nat,
{
    if s.len() == 0 {
        Some(Some(acc))
    } else {
        match get_single_f(ct, s[0], i, always, by_ref, fuel) {
            None => None,
            Some(None) => Some(None),
            Some(Some(x)) => get_from_f(ct, s.drop_first(), i, add_all(acc, x), always, by_ref, fuel),
        }
    }
}

/// [`get_single_f`] at a fuel where it finishes.
pub open spec fn get_single_spec(ct: Seq<TypeModel>, t: SingleTypeModel, i: usize, always: bool, by_ref: bool) -> Option<Option<Seq<SingleTypeModel>>> {
    get_single_f(ct, t, i, always, by_ref, choose|f: nat| get_single_f(ct, t, i, always, by_ref, f) is Some)
}

/// [`get_from_f`] from an empty union at a fuel where it finishes.
pub open spec fn get_spec(ct: Seq<TypeModel>, s: Seq<SingleTypeModel>, i: usize, always: bool, by_ref: bool) -> Option<Option<Seq<SingleTypeModel>>> {
    get_from_f(ct, s, i, Seq::empty(), always, by_ref, choose|f: nat| get_from_f(ct, s, i, Seq::empty(), always, by_ref, f) is Some)
}

proof fn lemma_get_step(ct: Seq<TypeModel>, s: Seq<SingleTypeModel>, i: usize, acc: Seq<SingleTypeModel>, always: bool, by_ref: bool, k: int, fuel: nat)
    requires
        0 <= k < s.len(),
    ensures
        get_from_f(ct, s.skip(k), i, acc, always, by_ref, fuel) == match get_single_f(ct, s[k], i, always, by_ref, fuel) {
            None => None,
            Some(None) => Some(None),
            Some(Some(x)) => get_from_f(ct, s.skip(k + 1), i, add_all(acc, x), always, by_ref, fuel),
        },
{
    assert(s.skip(k)[0] == s[k]);
    assert(s.skip(k).drop_first() =~= s.skip(k + 1));
}

fn get_single_x(t: &VSingleType, ct: &Vec<VType>, i: usize, always: bool, by_ref: bool, Ghost(fuel): Ghost<nat>) -> (r: Option<VType>)
    requires
        get_single_f(types_model(ct@), t.model(), i, always, by_ref, fuel) is Some,
    ensures
        r matches Some(x) ==> get_single_f(types_model(ct@), t.model(), i, always, by_ref, fuel) == Some(Some(x.model().types)),
        r is None ==> get_single_f(types_model(ct@), t.model(), i, always, by_ref, fuel) == Some(None::<Seq<SingleTypeModel>>),
    decreases fuel, t, 0nat,
{
    match t {
        VSingleType::String => if always { None } else { Some(VSingleType::String.to()) },
        VSingleType::List(x) => if always {
            None
        } else if by_ref {
            Some(x.reference())
        } else {
            Some(x.deep_clone())
        },
        VSingleType::Tuple(v) => {
            assert(types_model(v@).len() == v@.len());
            if i < v.len() {
                assert(types_model(v@)[i as int] == v@[i as int].model());
                if by_ref { Some(v[i].reference()) } else { Some(v[i].deep_clone()) }
            } else {
                None
            }
        },
        VSingleType::Reference(r) => get_single_x(r, ct, i, always, true, Ghost(fuel)),
        VSingleType::CustomType(x) => {
            assert(types_model(ct@)[*x as int] == ct@[*x as int].model());
            let inner = get_x(&ct[*x], ct, i, always, always && by_ref, Ghost((fuel - 1) as nat));
            if !always && by_ref {
                match inner {
                    Some(y) => Some(y.reference()),
                    None => None,
                }
            } else {
                inner
            }
        },
        VSingleType::CustomTypeS(_) => {
            assert(false);
            None
        },
        _ => None,
    }
}

fn get_x(t: &VType, ct: &Vec<VType>, i: usize, always: bool, by_ref: bool, Ghost(fuel): Ghost<nat>) -> (r: Option<VType>)
    requires
        get_from_f(types_model(ct@), t.model().types, i, Seq::empty(), always, by_ref, fuel) is Some,
    ensures
        r matches Some(x) ==> get_from_f(types_model(ct@), t.model().types, i, Seq::empty(), always, by_ref, fuel) == Some(Some(x.model().types)),
        r is None ==> get_from_f(types_model(ct@), t.model().types, i, Seq::empty(), always, by_ref, fuel) == Some(None::<Seq<SingleTypeModel>>),
    decreases fuel, t, 1nat,
{
    let ghost cm = types_model(ct@);
    let ghost s = t.model().types;
    assert(s == singles_model(t.types@));
    let mut out = VType::empty();
    let mut k: usize = 0;
    assert(s.skip(0) =~= s);
    while k < t.types.len()
        invariant
            cm == types_model(ct@),
            k <= t.types@.len(),
            s == singles_model(t.types@),
            s.len() == t.types@.len(),
            get_from_f(cm, s, i, Seq::empty(), always, by_ref, fuel) is Some,
            get_from_f(cm, s.skip(k as int), i, out.model().types, always, by_ref, fuel) == get_from_f(cm, s, i, Seq::empty(), always, by_ref, fuel),
        decreases t.types@.len() - k,
    {
        proof {
            assert(decreases_to!(t => t.types));
            assert(decreases_to!(t.types => t.types@));
            assert(decreases_to!(t.types@ => t.types@[k as int]));
            lemma_get_step(cm, s, i, out.model().types, always, by_ref, k as int, fuel);
            assert(s[k as int] == t.types@[k as int].model());
        }
        match get_single_x(&t.types[k], ct, i, always, by_ref, Ghost(fuel)) {
            Some(x) => {
                out = out.union(x);
            },
            None => {
                return None;
            },
        }
        k += 1;
    }
    assert(s.skip(k as int) =~= Seq::<SingleTypeModel>::empty());
    Some(out)
}

impl VSingleType {
    /// The types element `i` of a value of this type can have, or `None` when
    /// it has no such element.
    pub fn get(&self, i: usize, info: &GlobalScriptInfo) -> (r: Option<VType>)
        requires
            get_single_spec(info.custom(), self.model(), i, false, false) is Some,
        ensures
            r matches Some(x) ==> get_single_spec(info.custom(), self.model(), i, false, false) == Some(Some(x.model().types)),
            r is None ==> get_single_spec(info.custom(), self.model(), i, false, false) == Some(None::<Seq<SingleTypeModel>>),
    {
        let ghost f = choose|f: nat| get_single_f(info.custom(), self.model(), i, false, false, f) is Some;
        get_single_x(self, &info.custom_types, i, false, false, Ghost(f))
    }

    /// The types element `i` has when it is reached through a reference.
    pub fn get_ref(&self, i: usize, info: &GlobalScriptInfo) -> (r: Option<VType>)
        requires
            get_single_spec(info.custom(), self.model(), i, false, true) is Some,
        ensures
            r matches Some(x) ==> get_single_spec(info.custom(), self.model(), i, false, true) == Some(Some(x.model().types)),
            r is None ==> get_single_spec(info.custom(), self.model(), i, false, true) == Some(None::<Seq<SingleTypeModel>>),
    {
        let ghost f = choose|f: nat| get_single_f(info.custom(), self.model(), i, false, true, f) is Some;
        get_single_x(self, &info.custom_types, i, false, true, Ghost(f))
    }

    /// The types element `i` has where every value of this type has that
    /// element, or `None` where some value might not.
    pub fn get_always(&self, i: usize, info: &GlobalScriptInfo) -> (r: Option<VType>)
        requires
            get_single_spec(info.custom(), self.model(), i, true, false) is Some,
        ensures
            r matches Some(x) ==> get_single_spec(info.custom(), self.model(), i, true, false) == Some(Some(x.model().types)),
            r is None ==> get_single_spec(info.custom(), self.model(), i, true, false) == Some(None::<Seq<SingleTypeModel>>),
    {
        let ghost f = choose|f: nat| get_single_f(info.custom(), self.model(), i, true, false, f) is Some;
        get_single_x(self, &info.custom_types, i, true, false, Ghost(f))
    }

    /// [`VSingleType::get_always`] through a reference.
    pub fn get_always_ref(&self, i: usize, info: &GlobalScriptInfo) -> (r: Option<VType>)
        requires
            get_single_spec(info.custom(), self.model(), i, true, true) is Some,
        ensures
            r matches Some(x) ==> get_single_spec(info.custom(), self.model(), i, true, true) == Some(Some(x.model().types)),
            r is None ==> get_single_spec(info.custom(), self.model(), i, true, true) == Some(None::<Seq<SingleTypeModel>>),
    {
        let ghost f = choose|f: nat| get_single_f(info.custom(), self.model(), i, true, true, f) is Some;
        get_single_x(self, &info.custom_types, i, true, true, Ghost(f))
    }

    /// The types an element reached through a reference to a value of this
    /// type can have, or `None` when it has no elements.
    pub fn get_any_ref(&self, info: &GlobalScriptInfo) -> (r: Option<VType>)
        requires
            get_any_ref_single_spec(info.custom(), self.model()) is Some,
        ensures
            r matches Some(x) ==> get_any_ref_single_spec(info.custom(), self.model()) == Some(Some(x.model().types)),
            r is None ==> get_any_ref_single_spec(info.custom(), self.model()) == Some(None::<Seq<SingleTypeModel>>),
    {
        let ghost f = choose|f: nat| get_any_ref_single_f(info.custom(), self.model(), f) is Some;
        get_any_ref_single_x(self, &info.custom_types, Ghost(f))
    }

    /// The types an element of a value of this type can have, or `None` when
    /// it has no elements.
    pub fn get_any(&self, info: &GlobalScriptInfo) -> (r: Option<VType>)
        requires
            get_any_single_spec(info.custom(), self.model()) is Some,
        ensures
            r matches Some(x) ==> get_any_single_spec(info.custom(), self.model()) == Some(Some(x.model().types)),
            r is None ==> get_any_single_spec(info.custom(), self.model()) == Some(None::<Seq<SingleTypeModel>>),
    {
        let ghost f = choose|f: nat| get_any_single_f(info.custom(), self.model(), f) is Some;
        get_any_single_x(self, &info.custom_types, Ghost(f))
    }
}

impl VType {
    /// The types element `i` can have: the ordered union over the
    /// alternatives, or `None` as soon as one of them has no such element.
    pub fn get(&self, i: usize, info: &GlobalScriptInfo) -> (r: Option<VType>)
        requires
            get_spec(info.custom(), self.model().types, i, false, false) is Some,
        ensures
            r matches Some(x) ==> get_spec(info.custom(), self.model().types, i, false, false) == Some(Some(x.model().types)),
            r is None ==> get_spec(info.custom(), self.model().types, i, false, false) == Some(None::<Seq<SingleTypeModel>>),
    {
        let ghost f = choose|f: nat| get_from_f(info.custom(), self.model().types, i, Seq::empty(), false, false, f) is Some;
        get_x(self, &info.custom_types, i, false, false, Ghost(f))
    }

    /// [`VType::get`] where every alternative is certain to have element `i`.
    pub fn get_always(&self, i: usize, info: &GlobalScriptInfo) -> (r: Option<VType>)
        requires
            get_spec(info.custom(), self.model().types, i, true, false) is Some,
        ensures
            r matches Some(x) ==> get_spec(info.custom(), self.model().types, i, true, false) == Some(Some(x.model().types)),
            r is None ==> get_spec(info.custom(), self.model().types, i, true, false) == Some(None::<Seq<SingleTypeModel>>),
    {
        let ghost f = choose|f: nat| get_from_f(info.custom(), self.model().types, i, Seq::empty(), true, false, f) is Some;
        get_x(self, &info.custom_types, i, true, false, Ghost(f))
    }

    /// [`VType::get_always`] through a reference.
    pub fn get_always_ref(&self, i: usize, info: &GlobalScriptInfo) -> (r: Option<VType>)
        requires
            get_spec(info.custom(), self.model().types, i, true, true) is Some,
        ensures
            r matches Some(x) ==> get_spec(info.custom(), self.model().types, i, true, true) == Some(Some(x.model().types)),
            r is None ==> get_spec(info.custom(), self.model().types, i, true, true) == Some(None::<Seq<SingleTypeModel>>),
    {
        let ghost f = choose|f: nat| get_from_f(info.custom(), self.model().types, i, Seq::empty(), true, true, f) is Some;
        get_x(self, &info.custom_types, i, true, true, Ghost(f))
    }

    /// [`VType::get_any`] through a reference.
    pub fn get_any_ref(&self, info: &GlobalScriptInfo) -> (r: Option<VType>)
        requires
            get_any_ref_spec(info.custom(), self.model().types) is Some,
        ensures
            r matches Some(x) ==> get_any_ref_spec(info.custom(), self.model().types) == Some(Some(x.model().types)),
            r is None ==> get_any_ref_spec(info.custom(), self.model().types) == Some(None::<Seq<SingleTypeModel>>),
    {
        let ghost f = choose|f: nat| get_any_ref_from_f(info.custom(), self.model().types, Seq::empty(), f) is Some;
        get_any_ref_x(self, &info.custom_types, Ghost(f))
    }

    /// The types any element of a value of this type can have: the ordered
    /// union over the alternatives, or `None` as soon as one of them has no
    /// elements.
    pub fn get_any(&self, info: &GlobalScriptInfo) -> (r: Option<VType>)
        requires
            get_any_spec(info.custom(), self.model().types) is Some,
        ensures
            r matches Some(x) ==> get_any_spec(info.custom(), self.model().types) == Some(Some(x.model().types)),
            r is None ==> get_any_spec(info.custom(), self.model().types) == Some(None::<Seq<SingleTypeModel>>),
    {
        let ghost f = choose|f: nat| get_any_from_f(info.custom(), self.model().types, Seq::empty(), f) is Some;
        get_any_x(self, &info.custom_types, Ghost(f))
    }
}

} // verus!
