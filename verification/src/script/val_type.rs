//! The types of values as the script compiler sees them (no custom types),
//! with unions, references, element access and which type fits in which.
use vstd::prelude::*;
use crate::script::type_model::{SingleTypeModel, TypeModel, fns_model, singles_model, types_model};
use crate::name_map::{NameMap, id_for_spec};
use crate::ordered_union::{add_all, add_one, dedup, no_dups, lemma_add_all_contains, lemma_add_all_fresh, lemma_add_all_no_dups, lemma_add_all_prefix, lemma_add_all_present, lemma_add_all_single, lemma_add_all_step};

verus! {

#[derive(Debug, PartialEq, Eq)]
pub struct VType {
    pub types: Vec<VSingleType>,
}

#[derive(Debug, PartialEq, Eq)]
pub enum VSingleType {
    Bool,
    Int,
    Float,
    String,
    Tuple(Vec<VType>),
    List(VType),
    Function(Vec<(Vec<VSingleType>, VType)>),
    Thread(VType),
    Reference(Box<VSingleType>),
    EnumVariant(usize, VType),
    EnumVariantS(String, VType),
}

broadcast use crate::script::type_model::group_model_lemmas;



fn singles_eq(a: &Vec<VSingleType>, b: &Vec<VSingleType>) -> (r: bool)
    ensures
        r == (singles_model(a@) == singles_model(b@)),
    decreases a,
{
    if a.len() != b.len() {
        return false;
    }
    let mut i: usize = 0;
    while i < a.len()
        invariant
            a.len() == b.len(),
            i <= a.len(),
            forall|j: int| 0 <= j < i ==> a@[j].model() == b@[j].model(),
        decreases a.len() - i,
    {
        proof { assert(decreases_to!(a => a@[i as int])); }
        if !a[i].eq_model(&b[i]) {
            assert(singles_model(a@)[i as int] != singles_model(b@)[i as int]);
            return false;
        }
        i += 1;
    }
    assert(singles_model(a@) =~= singles_model(b@));
    true
}

fn types_eq(a: &Vec<VType>, b: &Vec<VType>) -> (r: bool)
    ensures
        r == (types_model(a@) == types_model(b@)),
    decreases a,
{
    if a.len() != b.len() {
        return false;
    }
    let mut i: usize = 0;
    while i < a.len()
        invariant
            a.len() == b.len(),
            i <= a.len(),
            forall|j: int| 0 <= j < i ==> a@[j].model() == b@[j].model(),
        decreases a.len() - i,
    {
        proof { assert(decreases_to!(a => a@[i as int])); }
        if !a[i].eq_model(&b[i]) {
            assert(types_model(a@)[i as int] != types_model(b@)[i as int]);
            return false;
        }
        i += 1;
    }
    assert(types_model(a@) =~= types_model(b@));
    true
}

fn fns_eq(a: &Vec<(Vec<VSingleType>, VType)>, b: &Vec<(Vec<VSingleType>, VType)>) -> (r: bool)
    ensures
        r == (fns_model(a@) == fns_model(b@)),
    decreases a,
{
    if a.len() != b.len() {
        return false;
    }
    let mut i: usize = 0;
    while i < a.len()
        invariant
            a.len() == b.len(),
            i <= a.len(),
            forall|j: int| 0 <= j < i ==> fns_model(a@)[j] == fns_model(b@)[j],
        decreases a.len() - i,
    {
        proof {
            assert(decreases_to!(a => a@[i as int]));
            assert(decreases_to!(a@[i as int] => a@[i as int].0));
            assert(decreases_to!(a@[i as int] => a@[i as int].1));
        }
        let ea = singles_eq(&a[i].0, &b[i].0);
        if !ea {
            assert(fns_model(a@)[i as int] != fns_model(b@)[i as int]);
            return false;
        }
        if !a[i].1.eq_model(&b[i].1) {
            assert(fns_model(a@)[i as int] != fns_model(b@)[i as int]);
            return false;
        }
        i += 1;
    }
    assert(fns_model(a@) =~= fns_model(b@));
    true
}

impl VType {
    /// Structural equality of two types.
    pub fn eq_model(&self, other: &VType) -> (r: bool)
        ensures
            r == (self.model() == other.model()),
        decreases self,
    {
        singles_eq(&self.types, &other.types)
    }
}

impl VSingleType {
    /// Structural equality of two single types.
    pub fn eq_model(&self, other: &VSingleType) -> (r: bool)
        ensures
            r == (self.model() == other.model()),
        decreases self,
    {
        match (self, other) {
            (VSingleType::Bool, VSingleType::Bool) => true,
            (VSingleType::Int, VSingleType::Int) => true,
            (VSingleType::Float, VSingleType::Float) => true,
            (VSingleType::String, VSingleType::String) => true,
            (VSingleType::Tuple(a), VSingleType::Tuple(b)) => types_eq(a, b),
            (VSingleType::List(a), VSingleType::List(b)) => a.eq_model(b),
            (VSingleType::Function(a), VSingleType::Function(b)) => fns_eq(a, b),
            (VSingleType::Thread(a), VSingleType::Thread(b)) => a.eq_model(b),
            (VSingleType::Reference(a), VSingleType::Reference(b)) => a.eq_model(b),
            (VSingleType::EnumVariant(ea, a), VSingleType::EnumVariant(eb, b)) => *ea == *eb && a.eq_model(b),
            (VSingleType::EnumVariantS(ea, a), VSingleType::EnumVariantS(eb, b)) => *ea == *eb && a.eq_model(b),
            _ => false,
        }
    }
}


pub(crate) fn clone_singles(v: &Vec<VSingleType>) -> (r: Vec<VSingleType>)
    ensures
        singles_model(r@) == singles_model(v@),
    decreases v,
{
    let mut r: Vec<VSingleType> = Vec::new();
    let mut i: usize = 0;
    while i < v.len()
        invariant
            i <= v.len(),
            r@.len() == i,
            forall|j: int| 0 <= j < i ==> r@[j].model() == v@[j].model(),
        decreases v.len() - i,
    {
        proof { assert(decreases_to!(v@ => v@[i as int])); }
        r.push(v[i].deep_clone());
        i += 1;
    }
    assert(singles_model(r@) =~= singles_model(v@));
    r
}

fn clone_types(v: &Vec<VType>) -> (r: Vec<VType>)
    ensures
        types_model(r@) == types_model(v@),
    decreases v,
{
    let mut r: Vec<VType> = Vec::new();
    let mut i: usize = 0;
    while i < v.len()
        invariant
            i <= v.len(),
            r@.len() == i,
            forall|j: int| 0 <= j < i ==> r@[j].model() == v@[j].model(),
        decreases v.len() - i,
    {
        proof { assert(decreases_to!(v@ => v@[i as int])); }
        r.push(v[i].deep_clone());
        i += 1;
    }
    assert(types_model(r@) =~= types_model(v@));
    r
}

fn clone_fns(f: &Vec<(Vec<VSingleType>, VType)>) -> (r: Vec<(Vec<VSingleType>, VType)>)
    ensures
        fns_model(r@) == fns_model(f@),
    decreases f,
{
    let mut r: Vec<(Vec<VSingleType>, VType)> = Vec::new();
    let mut i: usize = 0;
    while i < f.len()
        invariant
            i <= f.len(),
            r@.len() == i,
            forall|j: int| 0 <= j < i ==> fns_model(r@)[j] == fns_model(f@)[j],
        decreases f.len() - i,
    {
        proof {
            assert(decreases_to!(f@ => f@[i as int]));
            assert(decreases_to!(f@[i as int] => f@[i as int].0));
            assert(decreases_to!(f@[i as int] => f@[i as int].1));
        }
        let a = clone_singles(&f[i].0);
        let o = f[i].1.deep_clone();
        r.push((a, o));
        i += 1;
    }
    assert(fns_model(r@) =~= fns_model(f@));
    r
}

/// Whether `t` occurs (structurally) in `v`.
pub fn contains_single(v: &Vec<VSingleType>, t: &VSingleType) -> (r: bool)
    ensures
        r == singles_model(v@).contains(t.model()),
{
    let mut i: usize = 0;
    while i < v.len()
        invariant
            i <= v.len(),
            forall|j: int| 0 <= j < i ==> v@[j].model() != t.model(),
        decreases v.len() - i,
    {
        if v[i].eq_model(t) {
            assert(singles_model(v@)[i as int] == t.model());
            return true;
        }
        i += 1;
    }
    proof {
        if singles_model(v@).contains(t.model()) {
            let k = choose|k: int| 0 <= k < v@.len() && singles_model(v@)[k] == t.model();
            assert(v@[k].model() == t.model());
        }
    }
    false
}

/// Appends `t` to `v` unless it already occurs there.
pub fn push_unique(v: &mut Vec<VSingleType>, t: VSingleType)
    ensures
        singles_model(final(v)@) == add_one(singles_model(old(v)@), t.model()),
{
    if !contains_single(v, &t) {
        let ghost t_m = t.model();
        v.push(t);
        assert(singles_model(v@) =~= singles_model(old(v)@).push(t_m));
    }
}

impl VType {
    pub fn deep_clone(&self) -> (r: VType)
        ensures
            r.model() == self.model(),
        decreases self,
    {
        VType { types: clone_singles(&self.types) }
    }

    /// The type with no alternatives.
    pub fn empty() -> (r: Self)
        ensures
            r.model().types == Seq::<SingleTypeModel>::empty(),
    {
        let r = VType { types: Vec::new() };
        assert(singles_model(r.types@) =~= Seq::<SingleTypeModel>::empty());
        r
    }

    /// The alternatives of `self` followed by those of `rhs` that `self` does not already hold.
    pub fn union(self, rhs: VType) -> (r: VType)
        ensures
            r.model().types == add_all(self.model().types, rhs.model().types),
    {
        self.union_ref(&rhs)
    }

    /// [`VType::union`] with a borrowed right-hand side.
    pub fn union_ref(self, rhs: &VType) -> (r: VType)
        ensures
            r.model().types == add_all(self.model().types, rhs.model().types),
    {
        let mut types = self.types;
        let mut i: usize = 0;
        assert(rhs.model().types == singles_model(rhs.types@));
        assert(singles_model(rhs.types@).len() == rhs.types@.len());
        while i < rhs.types.len()
            invariant
                i <= rhs.types@.len(),
                rhs.model().types.len() == rhs.types@.len(),
                rhs.model().types == singles_model(rhs.types@),
                singles_model(types@) == add_all(self.model().types, rhs.model().types.take(i as int)),
            decreases rhs.types@.len() - i,
        {
            proof { lemma_add_all_step(self.model().types, rhs.model().types, i as int); }
            push_unique(&mut types, rhs.types[i].deep_clone());
            i += 1;
        }
        assert(rhs.model().types.take(i as int) =~= rhs.model().types);
        VType { types }
    }
}

impl VSingleType {
    pub fn deep_clone(&self) -> (r: VSingleType)
        ensures
            r.model() == self.model(),
        decreases self,
    {
        match self {
            VSingleType::Bool => VSingleType::Bool,
            VSingleType::Int => VSingleType::Int,
            VSingleType::Float => VSingleType::Float,
            VSingleType::String => VSingleType::String,
            VSingleType::Tuple(v) => VSingleType::Tuple(clone_types(v)),
            VSingleType::List(t) => VSingleType::List(t.deep_clone()),
            VSingleType::Function(f) => VSingleType::Function(clone_fns(f)),
            VSingleType::Thread(t) => VSingleType::Thread(t.deep_clone()),
            VSingleType::Reference(b) => VSingleType::Reference(Box::new(b.deep_clone())),
            VSingleType::EnumVariant(e, t) => VSingleType::EnumVariant(*e, t.deep_clone()),
            VSingleType::EnumVariantS(e, t) => VSingleType::EnumVariantS(e.clone(), t.deep_clone()),
        }
    }

    /// The type whose only alternative is `self`.
    pub fn to(self) -> (r: VType)
        ensures
            r.model().types == seq![self.model()],
    {
        let r = VType { types: vec![self] };
        assert(singles_model(r.types@) =~= seq![self.model()]);
        r
    }
}


/// Whether a single type is a reference.
pub open spec fn is_ref_model(t: SingleTypeModel) -> bool {
    t is Reference
}

/// `Some(true)` when every alternative is a reference, `Some(false)` when none
/// is, `None` when there are no alternatives or both kinds occur.
pub open spec fn is_reference_spec(s: Seq<SingleTypeModel>) -> Option<bool> {
    let has_ref = exists|i: int| 0 <= i < s.len() && is_ref_model(#[trigger] s[i]);
    let has_noref = exists|i: int| 0 <= i < s.len() && !is_ref_model(#[trigger] s[i]);
    if has_noref != has_ref {
        Some(has_ref)
    } else {
        None
    }
}

/// The alternatives a single type stands for once an enum wrapper is removed.
pub open spec fn noenum_single_spec(t: SingleTypeModel) -> Seq<SingleTypeModel> {
    match t {
        SingleTypeModel::EnumVariant(_, v) => v.types,
        SingleTypeModel::EnumVariantS(_, v) => v.types,
        _ => seq![t],
    }
}

/// [`noenum_single_spec`] of every alternative, joined as an ordered union.
pub open spec fn noenum_spec(s: Seq<SingleTypeModel>) -> Seq<SingleTypeModel>
    decreases s.len(),
{
    if s.len() == 0 {
        Seq::empty()
    } else {
        add_all(noenum_spec(s.drop_last()), noenum_single_spec(s.last()))
    }
}

/// `(can_fail_to_match, matches_as)` of a single type.
pub open spec fn matches_single_spec(t: SingleTypeModel) -> (bool, Seq<SingleTypeModel>) {
    match t {
        SingleTypeModel::Tuple(v) => if v.len() > 0 {
            (false, v[0].types)
        } else {
            (true, Seq::empty())
        },
        SingleTypeModel::Bool => (true, seq![SingleTypeModel::Bool]),
        SingleTypeModel::EnumVariant(..) => (true, Seq::empty()),
        SingleTypeModel::EnumVariantS(..) => (true, Seq::empty()),
        _ => (false, seq![t]),
    }
}

/// `(can_fail_to_match, matches_as)` of a type: it can fail when one of its
/// alternatives can, and matches as the ordered union of what they match as.
pub open spec fn matches_spec(s: Seq<SingleTypeModel>) -> (bool, Seq<SingleTypeModel>)
    decreases s.len(),
{
    if s.len() == 0 {
        (false, Seq::empty())
    } else {
        let (f, m) = matches_spec(s.drop_last());
        let (f2, m2) = matches_single_spec(s.last());
        (f || f2, add_all(m, m2))
    }
}

impl VSingleType {
    /// Whether this is a reference type.
    pub fn is_reference(&self) -> (r: bool)
        ensures
            r == is_ref_model(self.model()),
    {
        match self {
            VSingleType::Reference(_) => true,
            _ => false,
        }
    }

    /// The alternatives this type stands for once an enum wrapper is removed.
    pub fn noenum(self) -> (r: VType)
        ensures
            r.model().types == noenum_single_spec(self.model()),
    {
        match self {
            VSingleType::EnumVariant(_, v) => v,
            VSingleType::EnumVariantS(_, v) => v,
            v => v.to(),
        }
    }

    /// Returns `(can_fail_to_match, matches_as)`.
    pub fn matches(&self) -> (r: (bool, VType))
        ensures
            (r.0, r.1.model().types) == matches_single_spec(self.model()),
    {
        match self {
            VSingleType::Tuple(v) => {
                assert(self.model() == SingleTypeModel::Tuple(types_model(v@)));
                if v.len() > 0 {
                    assert(types_model(v@)[0] == v@[0].model());
                    (false, v[0].deep_clone())
                } else {
                    (true, VType::empty())
                }
            },
            VSingleType::Bool => (true, VSingleType::Bool.to()),
            VSingleType::EnumVariant(..) | VSingleType::EnumVariantS(..) => (true, VType::empty()),
            v => (false, v.deep_clone().to()),
        }
    }
}

impl VType {
    /// `Some(true)` or `Some(false)` when all alternatives are references or
    /// all are not; `None` when the type is empty or mixed.
    pub fn is_reference(&self) -> (r: Option<bool>)
        ensures
            r == is_reference_spec(self.model().types),
    {
        let ghost s = self.model().types;
        assert(s == singles_model(self.types@));
        let mut noref = false;
        let mut reference = false;
        let mut i: usize = 0;
        while i < self.types.len()
            invariant
                i <= self.types@.len(),
                s == singles_model(self.types@),
                s.len() == self.types@.len(),
                reference == exists|j: int| 0 <= j < i && is_ref_model(#[trigger] s[j]),
                noref == exists|j: int| 0 <= j < i && !is_ref_model(#[trigger] s[j]),
            decreases self.types@.len() - i,
        {
            if self.types[i].is_reference() {
                reference = true;
                assert(is_ref_model(s[i as int]));
            } else {
                noref = true;
                assert(!is_ref_model(s[i as int]));
            }
            i += 1;
        }
        if noref != reference {
            Some(reference)
        } else {
            None
        }
    }

    /// Returns `(can_fail_to_match, matches_as)`: whether matching a value of
    /// this type can fail, and the ordered union of what its alternatives
    /// match as.
    pub fn matches(&self) -> (r: (bool, VType))
        ensures
            (r.0, r.1.model().types) == matches_spec(self.model().types),
    {
        let ghost s = self.model().types;
        assert(s == singles_model(self.types@));
        let mut can_fail = false;
        let mut matches_as = Self::empty();
        let mut i: usize = 0;
        assert(s.take(0) =~= Seq::<SingleTypeModel>::empty());
        while i < self.types.len()
            invariant
                i <= self.types@.len(),
                s == singles_model(self.types@),
                s.len() == self.types@.len(),
                (can_fail, matches_as.model().types) == matches_spec(s.take(i as int)),
            decreases self.types@.len() - i,
        {
            assert(s.take(i + 1).drop_last() =~= s.take(i as int));
            let (f, t) = self.types[i].matches();
            can_fail = can_fail || f;
            matches_as = matches_as.union(t);
            i += 1;
        }
        assert(s.take(i as int) =~= s);
        (can_fail, matches_as)
    }

    /// The ordered union of what every alternative stands for once an enum
    /// wrapper is removed.
    pub fn noenum(self) -> (r: Self)
        ensures
            r.model().types == noenum_spec(self.model().types),
    {
        let ghost s = self.model().types;
        assert(s == singles_model(self.types@));
        let mut o = Self::empty();
        let mut i: usize = 0;
        while i < self.types.len()
            invariant
                i <= self.types@.len(),
                s == singles_model(self.types@),
                s.len() == self.types@.len(),
                o.model().types == noenum_spec(s.take(i as int)),
            decreases self.types@.len() - i,
        {
            assert(s.take(i + 1).drop_last() =~= s.take(i as int));
            o = o.union(self.types[i].deep_clone().noenum());
            i += 1;
        }
        assert(s.take(i as int) =~= s);
        o
    }
}


/// The alternatives of every value of a tuple, each added in order as with
/// [`add_all`].
pub open spec fn tuple_inner_spec(v: Seq<TypeModel>) -> Seq<SingleTypeModel>
    decreases v.len(),
{
    if v.len() == 0 {
        Seq::empty()
    } else {
        add_all(tuple_inner_spec(v.drop_last()), v.last().types)
    }
}

/// The index of the first variant of a function type that takes no
/// arguments, or `-1` when there is none.
pub open spec fn first_noarg_index(f: Seq<(Seq<SingleTypeModel>, TypeModel)>) -> int
    decreases f.len(),
{
    if f.len() == 0 {
        -1
    } else {
        let k = first_noarg_index(f.drop_last());
        if k >= 0 {
            k
        } else if f.last().0.len() == 0 {
            f.len() - 1
        } else {
            -1
        }
    }
}

pub proof fn lemma_first_noarg_index(f: Seq<(Seq<SingleTypeModel>, TypeModel)>)
    ensures
        -1 <= first_noarg_index(f) < f.len(),
        first_noarg_index(f) >= 0 ==> f[first_noarg_index(f)].0.len() == 0,
        forall|j: int| 0 <= j < f.len() && (j < first_noarg_index(f) || first_noarg_index(f) == -1) ==> (#[trigger] f[j]).0.len() != 0,
    decreases f.len(),
{
    if f.len() > 0 {
        lemma_first_noarg_index(f.drop_last());
        assert forall|j: int| 0 <= j < f.len() - 1 implies f.drop_last()[j] == #[trigger] f[j] by {}
    }
}

/// The types a `for` loop over a value of this single type yields.
pub open spec fn inner_types_spec(t: SingleTypeModel) -> Seq<SingleTypeModel> {
    match t {
        SingleTypeModel::Tuple(v) => tuple_inner_spec(v),
        SingleTypeModel::List(v) => v.types,
        SingleTypeModel::Int => seq![SingleTypeModel::Int],
        SingleTypeModel::Function(f) => {
            let k = first_noarg_index(f);
            if 0 <= k < f.len() {
                f[k].1.types
            } else {
                Seq::empty()
            }
        },
        _ => Seq::empty(),
    }
}

/// The ordered union of [`inner_types_spec`] of every alternative.
pub open spec fn types_inner_spec(s: Seq<SingleTypeModel>) -> Seq<SingleTypeModel>
    decreases s,
{
    if s.len() == 0 {
        Seq::empty()
    } else {
        add_all(types_inner_spec(s.drop_last()), inner_types_spec(s.last()))
    }
}

/// The index of the first variant of `f` that takes no arguments.
fn find_noarg(f: &Vec<(Vec<VSingleType>, VType)>) -> (r: Option<usize>)
    ensures
        r matches Some(k) ==> k < f@.len() && first_noarg_index(fns_model(f@)) == k,
        r is None ==> first_noarg_index(fns_model(f@)) == -1,
{
    let ghost fm = fns_model(f@);
    proof { lemma_first_noarg_index(fm); }
    let mut k: usize = 0;
    while k < f.len()
        invariant
            k <= f@.len(),
            fm == fns_model(f@),
            fm.len() == f@.len(),
            forall|j: int| 0 <= j < k ==> (#[trigger] fm[j]).0.len() != 0,
        decreases f@.len() - k,
    {
        assert(fm[k as int].0 == singles_model(f@[k as int].0@));
        if f[k].0.len() == 0 {
            proof {
                lemma_first_noarg_index(fm);
                let m = first_noarg_index(fm);
                if m >= 0 && m < k { assert(fm[m].0.len() != 0); }
                if m == -1 || m > k { assert(fm[k as int].0.len() != 0); }
            }
            return Some(k);
        }
        k += 1;
    }
    proof {
        let m = first_noarg_index(fm);
        if m >= 0 { assert(fm[m].0.len() != 0); }
    }
    None
}

impl VSingleType {
    /// The types that iterating over a value of this type yields.
    pub fn inner_types(&self) -> (r: Vec<VSingleType>)
        ensures
            singles_model(r@) == inner_types_spec(self.model()),
    {
        match self {
            VSingleType::Tuple(v) => {
                let ghost vm = types_model(v@);
                let mut types: Vec<VSingleType> = Vec::new();
                let mut i: usize = 0;
                assert(singles_model(types@) =~= tuple_inner_spec(vm.take(0)));
                while i < v.len()
                    invariant
                        i <= v@.len(),
                        vm == types_model(v@),
                        vm.len() == v@.len(),
                        singles_model(types@) == tuple_inner_spec(vm.take(i as int)),
                    decreases v@.len() - i,
                {
                    let it = &v[i];
                    let ghost before = singles_model(types@);
                    assert(it.model() == vm[i as int]);
                    assert(it.model().types == singles_model(it.types@));
                    let mut j: usize = 0;
                    while j < it.types.len()
                        invariant
                            j <= it.types@.len(),
                            it.model().types == singles_model(it.types@),
                            it.model().types.len() == it.types@.len(),
                            singles_model(types@) == add_all(before, it.model().types.take(j as int)),
                        decreases it.types@.len() - j,
                    {
                        proof { lemma_add_all_step(before, it.model().types, j as int); }
                        push_unique(&mut types, it.types[j].deep_clone());
                        j += 1;
                    }
                    assert(it.model().types.take(j as int) =~= it.model().types);
                    assert(vm.take(i + 1).drop_last() =~= vm.take(i as int));
                    i += 1;
                }
                assert(vm.take(i as int) =~= vm);
                assert(singles_model(types@) == tuple_inner_spec(vm));
                assert(self.model() == SingleTypeModel::Tuple(vm));
                assert(inner_types_spec(self.model()) == tuple_inner_spec(vm));
                types
            },
            VSingleType::List(v) => {
                assert(v.model().types == singles_model(v.types@));
                clone_singles(&v.types)
            },
            VSingleType::Int => {
                let r = vec![VSingleType::Int];
                assert(singles_model(r@) =~= seq![SingleTypeModel::Int]);
                r
            },
            VSingleType::Function(f) => {
                let ghost fm = fns_model(f@);
                assert(self.model() == SingleTypeModel::Function(fm));
                match find_noarg(f) {
                    Some(k) => {
                        assert(fm[k as int].1 == f@[k as int].1.model());
                        let out = f[k].1.deep_clone();
                        assert(out.model().types == singles_model(out.types@));
                        out.types
                    },
                    None => Vec::new(),
                }
            },
            _ => {
                let r: Vec<VSingleType> = Vec::new();
                assert(singles_model(r@) =~= Seq::<SingleTypeModel>::empty());
                r
            },
        }
    }

}

impl VType {
    /// The ordered union of the inner types of every alternative.
    pub fn inner_types(&self) -> (r: VType)
        ensures
            r.model().types == types_inner_spec(self.model().types),
    {
        let ghost s = self.model().types;
        assert(s == singles_model(self.types@));
        let mut types: Vec<VSingleType> = Vec::new();
        let mut i: usize = 0;
        assert(singles_model(types@) =~= types_inner_spec(s.take(0)));
        while i < self.types.len()
            invariant
                i <= self.types@.len(),
                s == singles_model(self.types@),
                s.len() == self.types@.len(),
                singles_model(types@) == types_inner_spec(s.take(i as int)),
            decreases self.types@.len() - i,
        {
            let inner = self.types[i].inner_types();
            let ghost before = singles_model(types@);
            let ghost im = singles_model(inner@);
            assert(s[i as int] == self.types@[i as int].model());
            let mut j: usize = 0;
            while j < inner.len()
                invariant
                    j <= inner@.len(),
                    im == singles_model(inner@),
                    im.len() == inner@.len(),
                    singles_model(types@) == add_all(before, im.take(j as int)),
                decreases inner@.len() - j,
            {
                proof { lemma_add_all_step(before, im, j as int); }
                push_unique(&mut types, inner[j].deep_clone());
                j += 1;
            }
            assert(im.take(j as int) =~= im);
            assert(s.take(i + 1).drop_last() =~= s.take(i as int));
            i += 1;
        }
        assert(s.take(i as int) =~= s);
        VType { types }
    }
}


/// Entries of a [`NameMap`] as `(name, id)` pairs.
pub type NameEntries = Seq<(Seq<char>, usize)>;

/// A single type with every named enum variant (`EnumVariantS`) replaced by
/// the numbered one (`EnumVariant`) whose id `m` holds for the name; unknown
/// names get the next free id. The type is walked left to right, a variant's
/// name before its inner type. Returns the new type and the new entries.
pub open spec fn ev_single_spec(t: SingleTypeModel, m: NameEntries) -> (SingleTypeModel, NameEntries)
    decreases t,
{
    match t {
        SingleTypeModel::Tuple(v) => {
            let (v2, m2) = ev_types_spec(v, m);
            (SingleTypeModel::Tuple(v2), m2)
        },
        SingleTypeModel::List(x) => {
            let (x2, m2) = ev_singles_spec(x.types, m);
            (SingleTypeModel::List(TypeModel { types: x2 }), m2)
        },
        SingleTypeModel::Function(f) => {
            let (f2, m2) = ev_fns_spec(f, m);
            (SingleTypeModel::Function(f2), m2)
        },
        SingleTypeModel::Thread(x) => {
            let (x2, m2) = ev_singles_spec(x.types, m);
            (SingleTypeModel::Thread(TypeModel { types: x2 }), m2)
        },
        SingleTypeModel::Reference(b) => {
            let (b2, m2) = ev_single_spec(*b, m);
            (SingleTypeModel::Reference(Box::new(b2)), m2)
        },
        SingleTypeModel::EnumVariant(e, x) => {
            let (x2, m2) = ev_singles_spec(x.types, m);
            (SingleTypeModel::EnumVariant(e, TypeModel { types: x2 }), m2)
        },
        SingleTypeModel::EnumVariantS(e, x) => {
            let (id, m1) = id_for_spec(m, e);
            let (x2, m2) = ev_singles_spec(x.types, m1);
            (SingleTypeModel::EnumVariant(id, TypeModel { types: x2 }), m2)
        },
        _ => (t, m),
    }
}

/// [`ev_single_spec`] over the alternatives of a type, left to right.
pub open spec fn ev_singles_spec(s: Seq<SingleTypeModel>, m: NameEntries) -> (Seq<SingleTypeModel>, NameEntries)
    decreases s,
{
    if s.len() == 0 {
        (Seq::empty(), m)
    } else {
        let (a, m1) = ev_singles_spec(s.drop_last(), m);
        let (b, m2) = ev_single_spec(s.last(), m1);
        (a.push(b), m2)
    }
}

/// [`ev_single_spec`] over the values of a tuple type, left to right.
pub open spec fn ev_types_spec(s: Seq<TypeModel>, m: NameEntries) -> (Seq<TypeModel>, NameEntries)
    decreases s,
{
    if s.len() == 0 {
        (Seq::empty(), m)
    } else {
        let (a, m1) = ev_types_spec(s.drop_last(), m);
        let (b, m2) = ev_singles_spec(s.last().types, m1);
        (a.push(TypeModel { types: b }), m2)
    }
}

/// [`ev_single_spec`] over the variants of a function type: for each, its
/// arguments left to right, then its output.
pub open spec fn ev_fns_spec(s: Seq<(Seq<SingleTypeModel>, TypeModel)>, m: NameEntries) -> (Seq<(Seq<SingleTypeModel>, TypeModel)>, NameEntries)
    decreases s,
{
    if s.len() == 0 {
        (Seq::empty(), m)
    } else {
        let (a, m1) = ev_fns_spec(s.drop_last(), m);
        let (args, m2) = ev_singles_spec(s.last().0, m1);
        let (out, m3) = ev_singles_spec(s.last().1.types, m2);
        (a.push((args, TypeModel { types: out })), m3)
    }
}

fn ev_single(t: VSingleType, ev: &mut NameMap) -> (r: VSingleType)
    ensures
        (r.model(), final(ev)@) == ev_single_spec(t.model(), old(ev)@),
    decreases t,
{
    let ghost t0 = t;
    match t {
        VSingleType::Tuple(v) => {
            proof { assert(decreases_to!(t0 => v)); }
            VSingleType::Tuple(ev_types(v, ev))
        },
        VSingleType::List(x) => {
            proof { assert(decreases_to!(t0 => x)); }
            VSingleType::List(ev_type(x, ev))
        },
        VSingleType::Function(f) => {
            proof { assert(decreases_to!(t0 => f)); }
            VSingleType::Function(ev_fns(f, ev))
        },
        VSingleType::Thread(x) => {
            proof { assert(decreases_to!(t0 => x)); }
            VSingleType::Thread(ev_type(x, ev))
        },
        VSingleType::Reference(b) => {
            proof { assert(decreases_to!(t0 => b)); }
            VSingleType::Reference(Box::new(ev_single(*b, ev)))
        },
        VSingleType::EnumVariant(e, x) => {
            proof { assert(decreases_to!(t0 => x)); }
            VSingleType::EnumVariant(e, ev_type(x, ev))
        },
        VSingleType::EnumVariantS(e, x) => {
            proof { assert(decreases_to!(t0 => x)); }
            let id = ev.id_for(&e);
            VSingleType::EnumVariant(id, ev_type(x, ev))
        },
        other => other,
    }
}

fn ev_type(t: VType, ev: &mut NameMap) -> (r: VType)
    ensures
        (r.model().types, final(ev)@) == ev_singles_spec(t.model().types, old(ev)@),
    decreases t,
{
    let ghost t0 = t;
    proof { assert(decreases_to!(t0 => t0.types)); }
    let types = ev_singles(t.types, ev);
    VType { types }
}

#[verifier::loop_isolation(false)]
fn ev_singles(v: Vec<VSingleType>, ev: &mut NameMap) -> (r: Vec<VSingleType>)
    ensures
        (singles_model(r@), final(ev)@) == ev_singles_spec(singles_model(v@), old(ev)@),
    decreases v,
{
    let ghost v0 = v;
    let ghost s = singles_model(v@);
    let mut v = v;
    let mut out: Vec<VSingleType> = Vec::new();
    let mut i: usize = 0;
    assert(s.take(0) =~= Seq::<SingleTypeModel>::empty());
    assert(singles_model(out@) =~= Seq::<SingleTypeModel>::empty());
    while i < v.len()
        invariant
            i <= v@.len(),
            v@.len() == v0@.len(),
            s == singles_model(v0@),
            s.len() == v0@.len(),
            forall|j: int| i <= j < v@.len() ==> v@[j] == v0@[j],
            (singles_model(out@), ev@) == ev_singles_spec(s.take(i as int), old(ev)@),
        decreases v@.len() - i,
    {
        let mut t = VSingleType::Bool;
        v.set_and_swap(i, &mut t);
        proof {
            assert(t == v0@[i as int]);
            assert(decreases_to!(v0 => v0@));
            assert(decreases_to!(v0@ => v0@[i as int]));
            assert(s.take(i + 1).drop_last() =~= s.take(i as int));
        }
        let ghost pre = out@;
        let r = ev_single(t, ev);
        out.push(r);
        assert(singles_model(out@) =~= singles_model(pre).push(r.model()));
        i += 1;
    }
    assert(s.take(i as int) =~= s);
    out
}

#[verifier::loop_isolation(false)]
fn ev_types(v: Vec<VType>, ev: &mut NameMap) -> (r: Vec<VType>)
    ensures
        (types_model(r@), final(ev)@) == ev_types_spec(types_model(v@), old(ev)@),
    decreases v,
{
    let ghost v0 = v;
    let ghost s = types_model(v@);
    let mut v = v;
    let mut out: Vec<VType> = Vec::new();
    let mut i: usize = 0;
    assert(s.take(0) =~= Seq::<TypeModel>::empty());
    assert(types_model(out@) =~= Seq::<TypeModel>::empty());
    while i < v.len()
        invariant
            i <= v@.len(),
            v@.len() == v0@.len(),
            s == types_model(v0@),
            s.len() == v0@.len(),
            forall|j: int| i <= j < v@.len() ==> v@[j] == v0@[j],
            (types_model(out@), ev@) == ev_types_spec(s.take(i as int), old(ev)@),
        decreases v@.len() - i,
    {
        let mut t = VType { types: Vec::new() };
        v.set_and_swap(i, &mut t);
        proof {
            assert(t == v0@[i as int]);
            assert(decreases_to!(v0 => v0@));
            assert(decreases_to!(v0@ => v0@[i as int]));
            assert(s.take(i + 1).drop_last() =~= s.take(i as int));
        }
        let ghost pre = out@;
        let r = ev_type(t, ev);
        out.push(r);
        assert(types_model(out@) =~= types_model(pre).push(r.model()));
        i += 1;
    }
    assert(s.take(i as int) =~= s);
    out
}

#[verifier::loop_isolation(false)]
fn ev_fns(v: Vec<(Vec<VSingleType>, VType)>, ev: &mut NameMap) -> (r: Vec<(Vec<VSingleType>, VType)>)
    ensures
        (fns_model(r@), final(ev)@) == ev_fns_spec(fns_model(v@), old(ev)@),
    decreases v,
{
    let ghost v0 = v;
    let ghost s = fns_model(v@);
    let mut v = v;
    let mut out: Vec<(Vec<VSingleType>, VType)> = Vec::new();
    let mut i: usize = 0;
    assert(s.take(0) =~= Seq::<(Seq<SingleTypeModel>, TypeModel)>::empty());
    assert(fns_model(out@) =~= Seq::<(Seq<SingleTypeModel>, TypeModel)>::empty());
    while i < v.len()
        invariant
            i <= v@.len(),
            v@.len() == v0@.len(),
            s == fns_model(v0@),
            s.len() == v0@.len(),
            forall|j: int| i <= j < v@.len() ==> v@[j] == v0@[j],
            (fns_model(out@), ev@) == ev_fns_spec(s.take(i as int), old(ev)@),
        decreases v@.len() - i,
    {
        let mut t: (Vec<VSingleType>, VType) = (Vec::new(), VType { types: Vec::new() });
        v.set_and_swap(i, &mut t);
        proof {
            assert(t == v0@[i as int]);
            assert(decreases_to!(v0 => v0@));
            assert(decreases_to!(v0@ => v0@[i as int]));
            assert(decreases_to!(v0@[i as int] => v0@[i as int].0));
            assert(decreases_to!(v0@[i as int] => v0@[i as int].1));
            assert(s.take(i + 1).drop_last() =~= s.take(i as int));
        }
        let (args, outt) = t;
        let ghost pre = out@;
        let args2 = ev_singles(args, ev);
        let out2 = ev_type(outt, ev);
        let ghost e = (singles_model(args2@), out2.model());
        out.push((args2, out2));
        assert(fns_model(out@) =~= fns_model(pre).push(e));
        i += 1;
    }
    assert(s.take(i as int) =~= s);
    out
}

impl VSingleType {
    /// Replaces every named enum variant (`EnumVariantS`) by the numbered one
    /// (`EnumVariant`), taking ids from `enum_variants` and adding names it
    /// does not know with the next free id.
    pub fn enum_variants(&mut self, enum_variants: &mut NameMap)
        ensures
            (final(self).model(), final(enum_variants)@) == ev_single_spec(old(self).model(), old(enum_variants)@),
    {
        let mut t = VSingleType::Bool;
        std::mem::swap(self, &mut t);
        *self = ev_single(t, enum_variants);
    }
}

impl VType {
    /// [`VSingleType::enum_variants`] on every alternative, left to right.
    pub fn enum_variants(&mut self, enum_variants: &mut NameMap)
        ensures
            (final(self).model().types, final(enum_variants)@) == ev_singles_spec(old(self).model().types, old(enum_variants)@),
    {
        let mut t = VType { types: Vec::new() };
        std::mem::swap(self, &mut t);
        *self = ev_type(t, enum_variants);
    }
}


/// The union of two types holds exactly the alternatives of either, keeps the
/// left operand's alternatives first and in order, and holds no alternative
/// twice when the left operand does not.
pub proof fn law_union(a: VType, b: VType)
    ensures
        forall|x: SingleTypeModel| add_all(a.model().types, b.model().types).contains(x) <==> (a.model().types.contains(x) || b.model().types.contains(x)),
        add_all(a.model().types, b.model().types).take(a.model().types.len() as int) == a.model().types,
        no_dups(a.model().types) ==> no_dups(add_all(a.model().types, b.model().types)),
{
    assert forall|x: SingleTypeModel| add_all(a.model().types, b.model().types).contains(x) <==> (a.model().types.contains(x) || b.model().types.contains(x)) by {
        lemma_add_all_contains(a.model().types, b.model().types, x);
    }
    lemma_add_all_prefix(a.model().types, b.model().types);
    if no_dups(a.model().types) {
        lemma_add_all_no_dups(a.model().types, b.model().types);
    }
}

/// The union of a type with itself, or with the empty type, is that type,
/// provided it holds no alternative twice.
pub proof fn law_union_idempotent(a: VType)
    requires
        no_dups(a.model().types),
    ensures
        add_all(a.model().types, a.model().types) == a.model().types,
        add_all(a.model().types, Seq::<SingleTypeModel>::empty()) == a.model().types,
{
    let s = a.model().types;
    assert forall|i: int| 0 <= i < s.len() implies s.contains(#[trigger] s[i]) by {}
    lemma_add_all_present(s, s);
}


/// What indexing a value of this single type with `i` can yield; `None` when
/// the type cannot be indexed.
pub open spec fn get_single_spec(t: SingleTypeModel, i: usize) -> Option<Seq<SingleTypeModel>>
    decreases t,
{
    match t {
        SingleTypeModel::String => Some(seq![SingleTypeModel::String]),
        SingleTypeModel::Tuple(v) => if i < v.len() {
            Some(v[i as int].types)
        } else {
            None
        },
        SingleTypeModel::List(x) => Some(x.types),
        SingleTypeModel::Reference(r) => get_single_spec(*r, i),
        SingleTypeModel::EnumVariant(_, x) => get_spec(x.types, i),
        SingleTypeModel::EnumVariantS(_, x) => get_spec(x.types, i),
        _ => None,
    }
}

/// [`get_single_spec`] of every alternative joined as an ordered union;
/// `None` when one alternative cannot be indexed.
pub open spec fn get_spec(s: Seq<SingleTypeModel>, i: usize) -> Option<Seq<SingleTypeModel>>
    decreases s,
{
    if s.len() == 0 {
        Some(Seq::empty())
    } else {
        match get_spec(s.drop_last(), i) {
            None => None,
            Some(acc) => match get_single_spec(s.last(), i) {
                None => None,
                Some(x) => Some(add_all(acc, x)),
            },
        }
    }
}

/// What any element of a value of this single type can be: `Some(None)` when
/// it has no elements, `Some(Some(ts))` for the element types `ts`, and `None`
/// when the computation reaches a named enum variant that has not been
/// resolved to its id (where the computation halts).
pub open spec fn get_any_single_spec(t: SingleTypeModel) -> Option<Option<Seq<SingleTypeModel>>>
    decreases t,
{
    match t {
        SingleTypeModel::String => Some(Some(seq![SingleTypeModel::String])),
        SingleTypeModel::Tuple(v) => Some(Some(tuple_inner_spec(v))),
        SingleTypeModel::List(x) => Some(Some(x.types)),
        SingleTypeModel::Reference(r) => get_any_single_spec(*r),
        SingleTypeModel::EnumVariant(_, x) => get_any_from(x.types, Seq::empty()),
        SingleTypeModel::EnumVariantS(..) => None,
        _ => Some(None),
    }
}

/// [`get_any_single_spec`] of the alternatives of `s` from the left, joined to
/// `acc` as an ordered union, stopping at the first that has no elements.
pub open spec fn get_any_from(s: Seq<SingleTypeModel>, acc: Seq<SingleTypeModel>) -> Option<Option<Seq<SingleTypeModel>>>
    decreases s,
{
    if s.len() == 0 {
        Some(Some(acc))
    } else {
        match get_any_single_spec(s[0]) {
            None => None,
            Some(None) => Some(None),
            Some(Some(x)) => get_any_from(s.drop_first(), add_all(acc, x)),
        }
    }
}

proof fn lemma_get_any_from_step(s: Seq<SingleTypeModel>, acc: Seq<SingleTypeModel>, i: int)
    requires
        0 <= i < s.len(),
    ensures
        get_any_from(s.skip(i), acc) == match get_any_single_spec(s[i]) {
            None => None,
            Some(None) => Some(None),
            Some(Some(x)) => get_any_from(s.skip(i + 1), add_all(acc, x)),
        },
{
    assert(s.skip(i)[0] == s[i]);
    assert(s.skip(i).drop_first() =~= s.skip(i + 1));
}

impl VSingleType {
    /// What indexing a value of this type with `i` can yield, or `None` when
    /// it cannot be indexed.
    pub fn get(&self, i: usize) -> (r: Option<VType>)
        ensures
            r matches Some(t) ==> get_single_spec(self.model(), i) == Some(t.model().types),
            r is None ==> get_single_spec(self.model(), i) is None,
        decreases self,
    {
        match self {
            VSingleType::Bool | VSingleType::Int | VSingleType::Float | VSingleType::Function(..) | VSingleType::Thread(..) => None,
            VSingleType::String => Some(VSingleType::String.to()),
            VSingleType::Tuple(t) => {
                assert(self.model() == SingleTypeModel::Tuple(types_model(t@)));
                if i < t.len() {
                    assert(types_model(t@)[i as int] == t@[i as int].model());
                    let r = t[i].deep_clone();
                    assert(r.model().types == singles_model(r.types@));
                    Some(r)
                } else {
                    None
                }
            },
            VSingleType::List(t) => Some(t.deep_clone()),
            VSingleType::Reference(r) => r.get(i),
            VSingleType::EnumVariant(_, t) | VSingleType::EnumVariantS(_, t) => t.get(i),
        }
    }

    /// The types any element of a value of this type can have, or `None` when
    /// it has no elements.
    pub fn get_any(&self) -> (r: Option<VType>)
        requires
            get_any_single_spec(self.model()) is Some,
        ensures
            r matches Some(t) ==> get_any_single_spec(self.model()) == Some(Some(t.model().types)),
            r is None ==> get_any_single_spec(self.model()) == Some(None::<Seq<SingleTypeModel>>),
        decreases self,
    {
        match self {
            VSingleType::Bool | VSingleType::Int | VSingleType::Float | VSingleType::Function(..) | VSingleType::Thread(..) => None,
            VSingleType::String => Some(VSingleType::String.to()),
            VSingleType::Tuple(t) => {
                let ghost vm = types_model(t@);
                assert(self.model() == SingleTypeModel::Tuple(vm));
                let mut out = VType::empty();
                let mut i: usize = 0;
                assert(vm.take(0) =~= Seq::<TypeModel>::empty());
                while i < t.len()
                    invariant
                        i <= t@.len(),
                        vm == types_model(t@),
                        vm.len() == t@.len(),
                        out.model().types == tuple_inner_spec(vm.take(i as int)),
                    decreases t@.len() - i,
                {
                    assert(vm[i as int] == t@[i as int].model());
                    assert(vm.take(i + 1).drop_last() =~= vm.take(i as int));
                    out = out.union_ref(&t[i]);
                    i += 1;
                }
                assert(vm.take(i as int) =~= vm);
                Some(out)
            },
            VSingleType::List(t) => Some(t.deep_clone()),
            VSingleType::Reference(r) => r.get_any(),
            VSingleType::EnumVariant(_, t) => t.get_any(),
            VSingleType::EnumVariantS(..) => {
                assert(false);
                None
            },
        }
    }
}

impl VType {
    /// Whether `t` is one of the alternatives.
    pub fn contains(&self, t: &VSingleType) -> (r: bool)
        ensures
            r == self.model().types.contains(t.model()),
    {
        contains_single(&self.types, t)
    }

    /// What indexing a value of this type with `i` can yield: the ordered
    /// union over all alternatives, or `None` when one of them cannot be
    /// indexed.
    pub fn get(&self, i: usize) -> (r: Option<VType>)
        ensures
            r matches Some(t) ==> get_spec(self.model().types, i) == Some(t.model().types),
            r is None ==> get_spec(self.model().types, i) is None,
        decreases self,
    {
        let ghost s = self.model().types;
        assert(s == singles_model(self.types@));
        let mut out = VType { types: Vec::new() };
        let mut k: usize = 0;
        assert(s.take(0) =~= Seq::<SingleTypeModel>::empty());
        assert(out.model().types =~= Seq::<SingleTypeModel>::empty());
        while k < self.types.len()
            invariant
                k <= self.types@.len(),
                s == singles_model(self.types@),
                s.len() == self.types@.len(),
                get_spec(s.take(k as int), i) == Some(out.model().types),
            decreases self.types@.len() - k,
        {
            proof {
                assert(decreases_to!(self => self.types));
                assert(decreases_to!(self.types => self.types@));
                assert(decreases_to!(self.types@ => self.types@[k as int]));
                assert(s.take(k + 1).drop_last() =~= s.take(k as int));
            }
            match self.types[k].get(i) {
                Some(t) => {
                    out = out.union(t);
                },
                None => {
                    proof {
                        let p = s.take(k + 1);
                        assert(get_spec(p, i) is None);
                        lemma_get_spec_prefix_none(s, i, k + 1);
                    }
                    return None;
                },
            }
            k += 1;
        }
        assert(s.take(k as int) =~= s);
        Some(out)
    }

    /// The types any element of a value of this type can have: the ordered
    /// union over the alternatives, or `None` as soon as one of them has no
    /// elements.
    pub fn get_any(&self) -> (r: Option<VType>)
        requires
            get_any_from(self.model().types, Seq::empty()) is Some,
        ensures
            r matches Some(t) ==> get_any_from(self.model().types, Seq::empty()) == Some(Some(t.model().types)),
            r is None ==> get_any_from(self.model().types, Seq::empty()) == Some(None::<Seq<SingleTypeModel>>),
        decreases self,
    {
        let ghost s = self.model().types;
        assert(s == singles_model(self.types@));
        let mut out = VType { types: Vec::new() };
        let mut k: usize = 0;
        assert(s.skip(0) =~= s);
        assert(out.model().types =~= Seq::<SingleTypeModel>::empty());
        while k < self.types.len()
            invariant
                k <= self.types@.len(),
                s == singles_model(self.types@),
                s.len() == self.types@.len(),
                get_any_from(s, Seq::empty()) is Some,
                get_any_from(s.skip(k as int), out.model().types) == get_any_from(s, Seq::empty()),
            decreases self.types@.len() - k,
        {
            proof {
                assert(decreases_to!(self => self.types));
                assert(decreases_to!(self.types => self.types@));
                assert(decreases_to!(self.types@ => self.types@[k as int]));
                lemma_get_any_from_step(s, out.model().types, k as int);
                assert(s[k as int] == self.types@[k as int].model());
            }
            match self.types[k].get_any() {
                Some(t) => {
                    out = out.union(t);
                },
                None => {
                    return None;
                },
            }
            k += 1;
        }
        assert(s.skip(k as int) =~= Seq::<SingleTypeModel>::empty());
        Some(out)
    }
}

proof fn lemma_get_spec_prefix_none(s: Seq<SingleTypeModel>, i: usize, k: int)
    requires
        0 <= k <= s.len(),
        get_spec(s.take(k), i) is None,
    ensures
        get_spec(s, i) is None,
    decreases s.len() - k,
{
    if k < s.len() {
        assert(s.take(k + 1).drop_last() =~= s.take(k));
        lemma_get_spec_prefix_none(s, i, k + 1);
    } else {
        assert(s.take(k) =~= s);
    }
}


/// The argument lists agree on every position both have.
pub open spec fn args_match(x: Seq<SingleTypeModel>, y: Seq<SingleTypeModel>) -> bool {
    forall|k: int| 0 <= k < x.len() && k < y.len() ==> x[k] == y[k]
}

/// Whether a value of type `a` is accepted where type `b` is expected.
/// `None` when the comparison reaches a named enum variant that has not been
/// resolved to its id (where the computation halts). Comparisons are made in
/// the order the definition lists them and stop at the first that decides.
pub open spec fn fits_single_spec(a: SingleTypeModel, b: SingleTypeModel) -> Option<bool>
    decreases a, 0nat, 0nat,
{
    match (a, b) {
        (SingleTypeModel::Reference(r), SingleTypeModel::Reference(q)) => fits_single_spec(*r, *q),
        (SingleTypeModel::Reference(_), _) => Some(false),
        (_, SingleTypeModel::Reference(_)) => Some(false),
        (SingleTypeModel::EnumVariant(v1, t1), SingleTypeModel::EnumVariant(v2, t2)) => if v1 == v2 {
            match fits_spec(t1.types, t2.types) {
                None => None,
                Some(no) => Some(no.len() == 0),
            }
        } else {
            Some(false)
        },
        (SingleTypeModel::EnumVariant(..), _) => Some(false),
        (_, SingleTypeModel::EnumVariant(..)) => Some(false),
        (SingleTypeModel::EnumVariantS(..), _) => None,
        (_, SingleTypeModel::EnumVariantS(..)) => None,
        (SingleTypeModel::Bool, SingleTypeModel::Bool) => Some(true),
        (SingleTypeModel::Int, SingleTypeModel::Int) => Some(true),
        (SingleTypeModel::Float, SingleTypeModel::Float) => Some(true),
        (SingleTypeModel::String, SingleTypeModel::String) => Some(true),
        (SingleTypeModel::Bool, _) => Some(false),
        (SingleTypeModel::Int, _) => Some(false),
        (SingleTypeModel::Float, _) => Some(false),
        (SingleTypeModel::String, _) => Some(false),
        (SingleTypeModel::Tuple(x), SingleTypeModel::Tuple(y)) => if x.len() == y.len() {
            tuple_fits_spec(x, y)
        } else {
            Some(false)
        },
        (SingleTypeModel::Tuple(_), _) => Some(false),
        (SingleTypeModel::List(x), SingleTypeModel::List(y)) => match fits_spec(x.types, y.types) {
            None => None,
            Some(no) => Some(no.len() == 0),
        },
        (SingleTypeModel::List(_), _) => Some(false),
        (SingleTypeModel::Function(x), SingleTypeModel::Function(y)) => funcs_fit_spec(x, y),
        (SingleTypeModel::Function(_), _) => Some(false),
        (SingleTypeModel::Thread(x), SingleTypeModel::Thread(y)) => match fits_spec(x.types, y.types) {
            None => None,
            Some(no) => Some(no.len() == 0),
        },
        (SingleTypeModel::Thread(_), _) => Some(false),
    }
}

/// Whether `t` fits in one of `rhs`, trying them from the left.
pub open spec fn any_fits_spec(t: SingleTypeModel, rhs: Seq<SingleTypeModel>) -> Option<bool>
    decreases t, 1nat, rhs.len(),
{
    if rhs.len() == 0 {
        Some(false)
    } else {
        match fits_single_spec(t, rhs[0]) {
            None => None,
            Some(true) => Some(true),
            Some(false) => any_fits_spec(t, rhs.drop_first()),
        }
    }
}

/// The alternatives of `s` that fit in none of `rhs`, in order.
pub open spec fn fits_spec(s: Seq<SingleTypeModel>, rhs: Seq<SingleTypeModel>) -> Option<Seq<SingleTypeModel>>
    decreases s, 2nat, 0nat,
{
    if s.len() == 0 {
        Some(Seq::empty())
    } else {
        match any_fits_spec(s[0], rhs) {
            None => None,
            Some(f) => match fits_spec(s.drop_first(), rhs) {
                None => None,
                Some(rest) => Some(if f { rest } else { seq![s[0]] + rest }),
            },
        }
    }
}

/// Whether every value of tuple `x` fits in the value of `y` at the same
/// position, checked from the left.
pub open spec fn tuple_fits_spec(x: Seq<TypeModel>, y: Seq<TypeModel>) -> Option<bool>
    decreases x, 0nat, 0nat,
{
    if x.len() == 0 || y.len() == 0 {
        Some(true)
    } else {
        match fits_spec(x[0].types, y[0].types) {
            None => None,
            Some(no) => if no.len() == 0 {
                tuple_fits_spec(x.drop_first(), y.drop_first())
            } else {
                Some(false)
            },
        }
    }
}

/// Whether some variant of `y` covers variant `e`: its output fits in that
/// variant's output and their arguments agree.
pub open spec fn fn_search_spec(e: (Seq<SingleTypeModel>, TypeModel), y: Seq<(Seq<SingleTypeModel>, TypeModel)>) -> Option<bool>
    decreases e, 1nat, y.len(),
{
    if y.len() == 0 {
        Some(false)
    } else {
        match fits_spec(e.1.types, y[0].1.types) {
            None => None,
            Some(no) => if no.len() == 0 && args_match(e.0, y[0].0) {
                Some(true)
            } else {
                fn_search_spec(e, y.drop_first())
            },
        }
    }
}

/// Whether every variant of function type `x` is covered by a variant of `y`.
pub open spec fn funcs_fit_spec(x: Seq<(Seq<SingleTypeModel>, TypeModel)>, y: Seq<(Seq<SingleTypeModel>, TypeModel)>) -> Option<bool>
    decreases x, 0nat, 0nat,
{
    if x.len() == 0 {
        Some(true)
    } else {
        match fn_search_spec(x[0], y) {
            None => None,
            Some(false) => Some(false),
            Some(true) => funcs_fit_spec(x.drop_first(), y),
        }
    }
}


fn args_equal(x: &Vec<VSingleType>, y: &Vec<VSingleType>) -> (r: bool)
    ensures
        r == args_match(singles_model(x@), singles_model(y@)),
{
    let ghost xm = singles_model(x@);
    let ghost ym = singles_model(y@);
    let mut k: usize = 0;
    while k < x.len() && k < y.len()
        invariant
            xm == singles_model(x@),
            ym == singles_model(y@),
            xm.len() == x@.len(),
            ym.len() == y@.len(),
            k <= x@.len(),
            forall|j: int| 0 <= j < k && j < y@.len() ==> xm[j] == ym[j],
        decreases x@.len() - k,
    {
        if !x[k].eq_model(&y[k]) {
            assert(xm[k as int] != ym[k as int]);
            return false;
        }
        k += 1;
    }
    true
}

fn tuple_fits(a: &Vec<VType>, b: &Vec<VType>) -> (r: bool)
    requires
        a@.len() == b@.len(),
        tuple_fits_spec(types_model(a@), types_model(b@)) is Some,
    ensures
        Some(r) == tuple_fits_spec(types_model(a@), types_model(b@)),
    decreases a,
{
    let ghost am = types_model(a@);
    let ghost bm = types_model(b@);
    let mut k: usize = 0;
    assert(am.skip(0) =~= am);
    assert(bm.skip(0) =~= bm);
    while k < a.len()
        invariant
            am == types_model(a@),
            bm == types_model(b@),
            am.len() == a@.len(),
            bm.len() == b@.len(),
            a@.len() == b@.len(),
            k <= a@.len(),
            tuple_fits_spec(am, bm) is Some,
            tuple_fits_spec(am.skip(k as int), bm.skip(k as int)) == tuple_fits_spec(am, bm),
        decreases a@.len() - k,
    {
        proof {
            assert(decreases_to!(a => a@));
            assert(decreases_to!(a@ => a@[k as int]));
            assert(am.skip(k as int)[0] == am[k as int]);
            assert(bm.skip(k as int)[0] == bm[k as int]);
            assert(am.skip(k as int).drop_first() =~= am.skip(k + 1));
            assert(bm.skip(k as int).drop_first() =~= bm.skip(k + 1));
            assert(am[k as int] == a@[k as int].model());
            assert(bm[k as int] == b@[k as int].model());
        }
        let no = a[k].fits_in(&b[k]);
        if no.len() != 0 {
            return false;
        }
        k += 1;
    }
    true
}

fn funcs_fit(a: &Vec<(Vec<VSingleType>, VType)>, b: &Vec<(Vec<VSingleType>, VType)>) -> (r: bool)
    requires
        funcs_fit_spec(fns_model(a@), fns_model(b@)) is Some,
    ensures
        Some(r) == funcs_fit_spec(fns_model(a@), fns_model(b@)),
    decreases a,
{
    let ghost am = fns_model(a@);
    let ghost bm = fns_model(b@);
    let mut k: usize = 0;
    assert(am.skip(0) =~= am);
    while k < a.len()
        invariant
            am == fns_model(a@),
            bm == fns_model(b@),
            am.len() == a@.len(),
            bm.len() == b@.len(),
            k <= a@.len(),
            funcs_fit_spec(am, bm) is Some,
            funcs_fit_spec(am.skip(k as int), bm) == funcs_fit_spec(am, bm),
        decreases a@.len() - k,
    {
        let ghost e = am[k as int];
        proof {
            assert(am.skip(k as int)[0] == e);
            assert(am.skip(k as int).drop_first() =~= am.skip(k + 1));
            assert(e == (singles_model(a@[k as int].0@), a@[k as int].1.model()));
            assert(bm.skip(0) =~= bm);
        }
        let mut j: usize = 0;
        let mut found = false;
        proof { assert(bm.skip(b@.len() as int) =~= Seq::<(Seq<SingleTypeModel>, TypeModel)>::empty()); }
        while j < b.len()
            invariant_except_break
                !found,
            invariant
                am == fns_model(a@),
                bm == fns_model(b@),
                am.len() == a@.len(),
                bm.len() == b@.len(),
                k < a@.len(),
                e == am[k as int],
                e == (singles_model(a@[k as int].0@), a@[k as int].1.model()),
                j <= b@.len(),
                fn_search_spec(e, bm) is Some,
                fn_search_spec(e, bm.skip(j as int)) == fn_search_spec(e, bm),
            ensures
                found ==> fn_search_spec(e, bm) == Some(true),
                !found ==> fn_search_spec(e, bm) == Some(false),
            decreases b@.len() - j,
        {
            proof {
                assert(decreases_to!(a => a@));
                assert(decreases_to!(a@ => a@[k as int]));
                assert(decreases_to!(a@[k as int] => a@[k as int].1));
                assert(bm.skip(j as int)[0] == bm[j as int]);
                assert(bm.skip(j as int).drop_first() =~= bm.skip(j + 1));
                assert(bm[j as int] == (singles_model(b@[j as int].0@), b@[j as int].1.model()));
            }
            let no = a[k].1.fits_in(&b[j].1);
            if no.len() == 0 && args_equal(&a[k].0, &b[j].0) {
                found = true;
                break;
            }
            j += 1;
        }
        if !found {
            proof {
                assert(funcs_fit_spec(am.skip(k as int), bm) == Some(false));
            }
            return false;
        }
        k += 1;
    }
    true
}

impl VSingleType {
    /// Whether a value of this type is accepted where `rhs` is expected.
    pub fn fits_in(&self, rhs: &Self) -> (r: bool)
        requires
            fits_single_spec(self.model(), rhs.model()) is Some,
        ensures
            Some(r) == fits_single_spec(self.model(), rhs.model()),
        decreases self,
    {
        match (self, rhs) {
            (VSingleType::Reference(r), VSingleType::Reference(b)) => r.fits_in(b),
            (VSingleType::Reference(_), _) | (_, VSingleType::Reference(_)) => false,
            (VSingleType::EnumVariant(v1, t1), VSingleType::EnumVariant(v2, t2)) => {
                *v1 == *v2 && t1.fits_in(t2).len() == 0
            },
            (VSingleType::EnumVariant(..), _) | (_, VSingleType::EnumVariant(..)) => false,
            (VSingleType::EnumVariantS(..), _) | (_, VSingleType::EnumVariantS(..)) => {
                assert(false);
                false
            },
            (VSingleType::Bool, VSingleType::Bool)
            | (VSingleType::Int, VSingleType::Int)
            | (VSingleType::Float, VSingleType::Float)
            | (VSingleType::String, VSingleType::String) => true,
            (VSingleType::Bool | VSingleType::Int | VSingleType::Float | VSingleType::String, _) => false,
            (VSingleType::Tuple(a), VSingleType::Tuple(b)) => {
                if a.len() == b.len() {
                    tuple_fits(a, b)
                } else {
                    false
                }
            },
            (VSingleType::Tuple(_), _) => false,
            (VSingleType::List(a), VSingleType::List(b)) => a.fits_in(b).len() == 0,
            (VSingleType::List(_), _) => false,
            (VSingleType::Function(a), VSingleType::Function(b)) => funcs_fit(a, b),
            (VSingleType::Function(..), _) => false,
            (VSingleType::Thread(a), VSingleType::Thread(b)) => a.fits_in(b).len() == 0,
            (VSingleType::Thread(..), _) => false,
        }
    }
}

impl VType {
    /// The alternatives of `self` that fit in none of the alternatives of
    /// `rhs`, in order; empty when `self` fits in `rhs`.
    pub fn fits_in(&self, rhs: &Self) -> (r: Vec<VSingleType>)
        requires
            fits_spec(self.model().types, rhs.model().types) is Some,
        ensures
            Some(singles_model(r@)) == fits_spec(self.model().types, rhs.model().types),
        decreases self,
    {
        let ghost s = self.model().types;
        let ghost rm = rhs.model().types;
        assert(s == singles_model(self.types@));
        assert(rm == singles_model(rhs.types@));
        let mut no: Vec<VSingleType> = Vec::new();
        let mut i: usize = 0;
        assert(s.skip(0) =~= s);
        assert(singles_model(no@) =~= Seq::<SingleTypeModel>::empty());
        assert(Seq::<SingleTypeModel>::empty() + fits_spec(s, rm).unwrap() =~= fits_spec(s, rm).unwrap());
        while i < self.types.len()
            invariant
                s == singles_model(self.types@),
                rm == singles_model(rhs.types@),
                s.len() == self.types@.len(),
                rm.len() == rhs.types@.len(),
                i <= self.types@.len(),
                fits_spec(s.skip(i as int), rm) is Some,
                fits_spec(s, rm) == Some(singles_model(no@) + fits_spec(s.skip(i as int), rm).unwrap()),
            decreases self.types@.len() - i,
        {
            let ghost t = s[i as int];
            proof {
                assert(s.skip(i as int)[0] == t);
                assert(s.skip(i as int).drop_first() =~= s.skip(i + 1));
                assert(t == self.types@[i as int].model());
                assert(rm.skip(0) =~= rm);
            }
            let mut j: usize = 0;
            let mut fits = false;
            proof { assert(rm.skip(rm.len() as int) =~= Seq::<SingleTypeModel>::empty()); }
            while j < rhs.types.len()
                invariant_except_break
                    !fits,
                invariant
                    s == singles_model(self.types@),
                    rm == singles_model(rhs.types@),
                    s.len() == self.types@.len(),
                    rm.len() == rhs.types@.len(),
                    i < self.types@.len(),
                    t == s[i as int],
                    t == self.types@[i as int].model(),
                    j <= rhs.types@.len(),
                    any_fits_spec(t, rm) is Some,
                    any_fits_spec(t, rm.skip(j as int)) == any_fits_spec(t, rm),
                ensures
                    fits ==> any_fits_spec(t, rm) == Some(true),
                    !fits ==> any_fits_spec(t, rm) == Some(false),
                decreases rhs.types@.len() - j,
            {
                proof {
                    assert(decreases_to!(self => self.types));
                    assert(decreases_to!(self.types => self.types@));
                    assert(decreases_to!(self.types@ => self.types@[i as int]));
                    assert(rm.skip(j as int)[0] == rm[j as int]);
                    assert(rm.skip(j as int).drop_first() =~= rm.skip(j + 1));
                    assert(rm[j as int] == rhs.types@[j as int].model());
                }
                if self.types[i].fits_in(&rhs.types[j]) {
                    fits = true;
                    break;
                }
                j += 1;
            }
            let ghost pre = singles_model(no@);
            if !fits {
                no.push(self.types[i].deep_clone());
                assert(singles_model(no@) =~= pre.push(t));
                assert(pre.push(t) + fits_spec(s.skip(i + 1), rm).unwrap() =~= pre + (seq![t] + fits_spec(s.skip(i + 1), rm).unwrap()));
            }
            i += 1;
        }
        assert(s.skip(i as int) =~= Seq::<SingleTypeModel>::empty());
        assert(singles_model(no@) + Seq::<SingleTypeModel>::empty() =~= singles_model(no@));
        no
    }
}

} // verus!
