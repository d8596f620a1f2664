//! The types of mers values, and the operations on them that need no
//! knowledge of the script: ordered unions, references, enum variants.
use vstd::prelude::*;
use crate::lang::type_model::{SingleTypeModel, TypeModel, fns_model, singles_model, types_model};
use crate::name_map::{NameMap, id_for_spec};
use crate::ordered_union::{add_all, add_one, dedup, no_dups, lemma_add_all_contains, lemma_add_all_fresh, lemma_add_all_no_dups, lemma_add_all_prefix, lemma_add_all_present, lemma_add_all_single, lemma_add_all_step};

verus! {

#[derive(Debug, PartialEq, Eq)]
pub struct VType {
    pub types: Vec<VSingleType>,
}

#[derive(Debug, PartialEq, Eq)]
pub enum VSingleType {
    Bool,
    Int,
    Float,
    String,
    Tuple(Vec<VType>),
    List(VType),
    Function(Vec<(Vec<VSingleType>, VType)>),
    Thread(VType),
    Reference(Box<VSingleType>),
    EnumVariant(usize, VType),
    EnumVariantS(String, VType),
    CustomType(usize),
    CustomTypeS(String),
}

broadcast use crate::lang::type_model::group_model_lemmas;



pub(crate) fn singles_eq(a: &Vec<VSingleType>, b: &Vec<VSingleType>) -> (r: bool)
    ensures
        r == (singles_model(a@) == singles_model(b@)),
    decreases a,
{
    if a.len() != b.len() {
        return false;
    }
    let mut i: usize = 0;
    while i < a.len()
        invariant
            a.len() == b.len(),
            i <= a.len(),
            forall|j: int| 0 <= j < i ==> a@[j].model() == b@[j].model(),
        decreases a.len() - i,
    {
        proof { assert(decreases_to!(a => a@[i as int])); }
        if !a[i].eq_model(&b[i]) {
            assert(singles_model(a@)[i as int] != singles_model(b@)[i as int]);
            return false;
        }
        i += 1;
    }
    assert(singles_model(a@) =~= singles_model(b@));
    true
}

fn types_eq(a: &Vec<VType>, b: &Vec<VType>) -> (r: bool)
    ensures
        r == (types_model(a@) == types_model(b@)),
    decreases a,
{
    if a.len() != b.len() {
        return false;
    }
    let mut i: usize = 0;
    while i < a.len()
        invariant
            a.len() == b.len(),
            i <= a.len(),
            forall|j: int| 0 <= j < i ==> a@[j].model() == b@[j].model(),
        decreases a.len() - i,
    {
        proof { assert(decreases_to!(a => a@[i as int])); }
        if !a[i].eq_model(&b[i]) {
            assert(types_model(a@)[i as int] != types_model(b@)[i as int]);
            return false;
        }
        i += 1;
    }
    assert(types_model(a@) =~= types_model(b@));
    true
}

fn fns_eq(a: &Vec<(Vec<VSingleType>, VType)>, b: &Vec<(Vec<VSingleType>, VType)>) -> (r: bool)
    ensures
        r == (fns_model(a@) == fns_model(b@)),
    decreases a,
{
    if a.len() != b.len() {
        return false;
    }
    let mut i: usize = 0;
    while i < a.len()
        invariant
            a.len() == b.len(),
            i <= a.len(),
            forall|j: int| 0 <= j < i ==> fns_model(a@)[j] == fns_model(b@)[j],
        decreases a.len() - i,
    {
        proof {
            assert(decreases_to!(a => a@[i as int]));
            assert(decreases_to!(a@[i as int] => a@[i as int].0));
            assert(decreases_to!(a@[i as int] => a@[i as int].1));
        }
        let ea = singles_eq(&a[i].0, &b[i].0);
        if !ea {
            assert(fns_model(a@)[i as int] != fns_model(b@)[i as int]);
            return false;
        }
        if !a[i].1.eq_model(&b[i].1) {
            assert(fns_model(a@)[i as int] != fns_model(b@)[i as int]);
            return false;
        }
        i += 1;
    }
    assert(fns_model(a@) =~= fns_model(b@));
    true
}

impl VType {
    /// Structural equality of two types.
    pub fn eq_model(&self, other: &VType) -> (r: bool)
        ensures
            r == (self.model() == other.model()),
        decreases self,
    {
        singles_eq(&self.types, &other.types)
    }
}

impl VSingleType {
    /// Structural equality of two single types.
    pub fn eq_model(&self, other: &VSingleType) -> (r: bool)
        ensures
            r == (self.model() == other.model()),
        decreases self,
    {
        match (self, other) {
            (VSingleType::Bool, VSingleType::Bool) => true,
            (VSingleType::Int, VSingleType::Int) => true,
            (VSingleType::Float, VSingleType::Float) => true,
            (VSingleType::String, VSingleType::String) => true,
            (VSingleType::Tuple(a), VSingleType::Tuple(b)) => types_eq(a, b),
            (VSingleType::List(a), VSingleType::List(b)) => a.eq_model(b),
            (VSingleType::Function(a), VSingleType::Function(b)) => fns_eq(a, b),
            (VSingleType::Thread(a), VSingleType::Thread(b)) => a.eq_model(b),
            (VSingleType::Reference(a), VSingleType::Reference(b)) => a.eq_model(b),
            (VSingleType::EnumVariant(ea, a), VSingleType::EnumVariant(eb, b)) => *ea == *eb && a.eq_model(b),
            (VSingleType::EnumVariantS(ea, a), VSingleType::EnumVariantS(eb, b)) => *ea == *eb && a.eq_model(b),
            (VSingleType::CustomType(a), VSingleType::CustomType(b)) => *a == *b,
            (VSingleType::CustomTypeS(a), VSingleType::CustomTypeS(b)) => *a == *b,
            _ => false,
        }
    }
}


fn clone_singles(v: &Vec<VSingleType>) -> (r: Vec<VSingleType>)
    ensures
        singles_model(r@) == singles_model(v@),
    decreases v,
{
    let mut r: Vec<VSingleType> = Vec::new();
    let mut i: usize = 0;
    while i < v.len()
        invariant
            i <= v.len(),
            r@.len() == i,
            forall|j: int| 0 <= j < i ==> r@[j].model() == v@[j].model(),
        decreases v.len() - i,
    {
        proof { assert(decreases_to!(v@ => v@[i as int])); }
        r.push(v[i].deep_clone());
        i += 1;
    }
    assert(singles_model(r@) =~= singles_model(v@));
    r
}

fn clone_types(v: &Vec<VType>) -> (r: Vec<VType>)
    ensures
        types_model(r@) == types_model(v@),
    decreases v,
{
    let mut r: Vec<VType> = Vec::new();
    let mut i: usize = 0;
    while i < v.len()
        invariant
            i <= v.len(),
            r@.len() == i,
            forall|j: int| 0 <= j < i ==> r@[j].model() == v@[j].model(),
        decreases v.len() - i,
    {
        proof { assert(decreases_to!(v@ => v@[i as int])); }
        r.push(v[i].deep_clone());
        i += 1;
    }
    assert(types_model(r@) =~= types_model(v@));
    r
}

pub(crate) fn clone_fns(f: &Vec<(Vec<VSingleType>, VType)>) -> (r: Vec<(Vec<VSingleType>, VType)>)
    ensures
        fns_model(r@) == fns_model(f@),
    decreases f,
{
    let mut r: Vec<(Vec<VSingleType>, VType)> = Vec::new();
    let mut i: usize = 0;
    while i < f.len()
        invariant
            i <= f.len(),
            r@.len() == i,
            forall|j: int| 0 <= j < i ==> fns_model(r@)[j] == fns_model(f@)[j],
        decreases f.len() - i,
    {
        proof {
            assert(decreases_to!(f@ => f@[i as int]));
            assert(decreases_to!(f@[i as int] => f@[i as int].0));
            assert(decreases_to!(f@[i as int] => f@[i as int].1));
        }
        let a = clone_singles(&f[i].0);
        let o = f[i].1.deep_clone();
        r.push((a, o));
        i += 1;
    }
    assert(fns_model(r@) =~= fns_model(f@));
    r
}

/// Whether `t` occurs (structurally) in `v`.
pub fn contains_single(v: &Vec<VSingleType>, t: &VSingleType) -> (r: bool)
    ensures
        r == singles_model(v@).contains(t.model()),
{
    let mut i: usize = 0;
    while i < v.len()
        invariant
            i <= v.len(),
            forall|j: int| 0 <= j < i ==> v@[j].model() != t.model(),
        decreases v.len() - i,
    {
        if v[i].eq_model(t) {
            assert(singles_model(v@)[i as int] == t.model());
            return true;
        }
        i += 1;
    }
    proof {
        if singles_model(v@).contains(t.model()) {
            let k = choose|k: int| 0 <= k < v@.len() && singles_model(v@)[k] == t.model();
            assert(v@[k].model() == t.model());
        }
    }
    false
}

/// Appends `t` to `v` unless it already occurs there.
pub fn push_unique(v: &mut Vec<VSingleType>, t: VSingleType)
    ensures
        singles_model(final(v)@) == add_one(singles_model(old(v)@), t.model()),
{
    if !contains_single(v, &t) {
        let ghost t_m = t.model();
        v.push(t);
        assert(singles_model(v@) =~= singles_model(old(v)@).push(t_m));
    }
}

impl VType {
    pub fn deep_clone(&self) -> (r: VType)
        ensures
            r.model() == self.model(),
        decreases self,
    {
        VType { types: clone_singles(&self.types) }
    }

    /// The type with no alternatives.
    pub fn empty() -> (r: Self)
        ensures
            r.model().types == Seq::<SingleTypeModel>::empty(),
    {
        let r = VType { types: Vec::new() };
        assert(singles_model(r.types@) =~= Seq::<SingleTypeModel>::empty());
        r
    }

    /// The alternatives of `self` followed by those of `rhs` that `self` does not already hold.
    pub fn union(self, rhs: VType) -> (r: VType)
        ensures
            r.model().types == add_all(self.model().types, rhs.model().types),
    {
        self.union_ref(&rhs)
    }

    /// [`VType::union`] with a borrowed right-hand side.
    pub fn union_ref(self, rhs: &VType) -> (r: VType)
        ensures
            r.model().types == add_all(self.model().types, rhs.model().types),
    {
        let mut types = self.types;
        let mut i: usize = 0;
        assert(rhs.model().types == singles_model(rhs.types@));
        assert(singles_model(rhs.types@).len() == rhs.types@.len());
        while i < rhs.types.len()
            invariant
                i <= rhs.types@.len(),
                rhs.model().types.len() == rhs.types@.len(),
                rhs.model().types == singles_model(rhs.types@),
                singles_model(types@) == add_all(self.model().types, rhs.model().types.take(i as int)),
            decreases rhs.types@.len() - i,
        {
            proof { lemma_add_all_step(self.model().types, rhs.model().types, i as int); }
            push_unique(&mut types, rhs.types[i].deep_clone());
            i += 1;
        }
        assert(rhs.model().types.take(i as int) =~= rhs.model().types);
        VType { types }
    }
}

impl VSingleType {
    pub fn deep_clone(&self) -> (r: VSingleType)
        ensures
            r.model() == self.model(),
        decreases self,
    {
        match self {
            VSingleType::Bool => VSingleType::Bool,
            VSingleType::Int => VSingleType::Int,
            VSingleType::Float => VSingleType::Float,
            VSingleType::String => VSingleType::String,
            VSingleType::Tuple(v) => VSingleType::Tuple(clone_types(v)),
            VSingleType::List(t) => VSingleType::List(t.deep_clone()),
            VSingleType::Function(f) => VSingleType::Function(clone_fns(f)),
            VSingleType::Thread(t) => VSingleType::Thread(t.deep_clone()),
            VSingleType::Reference(b) => VSingleType::Reference(Box::new(b.deep_clone())),
            VSingleType::EnumVariant(e, t) => VSingleType::EnumVariant(*e, t.deep_clone()),
            VSingleType::EnumVariantS(e, t) => VSingleType::EnumVariantS(e.clone(), t.deep_clone()),
            VSingleType::CustomType(c) => VSingleType::CustomType(*c),
            VSingleType::CustomTypeS(c) => VSingleType::CustomTypeS(c.clone()),
        }
    }

    /// The type whose only alternative is `self`.
    pub fn to(self) -> (r: VType)
        ensures
            r.model().types == seq![self.model()],
    {
        let r = VType { types: vec![self] };
        assert(singles_model(r.types@) =~= seq![self.model()]);
        r
    }
}


/// Whether a single type is a reference.
pub open spec fn is_ref_model(t: SingleTypeModel) -> bool {
    t is Reference
}

/// What a reference points to; any other type stands for itself.
pub open spec fn deref_model(t: SingleTypeModel) -> SingleTypeModel {
    match t {
        SingleTypeModel::Reference(b) => *b,
        _ => t,
    }
}

/// `Some(true)` when every alternative is a reference, `Some(false)` when none
/// is, `None` when there are no alternatives or both kinds occur.
pub open spec fn is_reference_spec(s: Seq<SingleTypeModel>) -> Option<bool> {
    let has_ref = exists|i: int| 0 <= i < s.len() && is_ref_model(#[trigger] s[i]);
    let has_noref = exists|i: int| 0 <= i < s.len() && !is_ref_model(#[trigger] s[i]);
    if has_noref != has_ref {
        Some(has_ref)
    } else {
        None
    }
}

/// The alternatives of a dereferenced type: defined when every alternative is
/// a reference, and then the pointed-to types with repetitions removed.
pub open spec fn dereference_spec(s: Seq<SingleTypeModel>) -> Option<Seq<SingleTypeModel>> {
    if forall|i: int| 0 <= i < s.len() ==> is_ref_model(#[trigger] s[i]) {
        Some(dedup(s.map_values(|t: SingleTypeModel| deref_model(t))))
    } else {
        None
    }
}

/// Every alternative wrapped in a reference.
pub open spec fn reference_spec(s: Seq<SingleTypeModel>) -> Seq<SingleTypeModel> {
    s.map_values(|t: SingleTypeModel| SingleTypeModel::Reference(Box::new(t)))
}

/// The alternatives a single type stands for once an enum wrapper is removed.
pub open spec fn noenum_single_spec(t: SingleTypeModel) -> Seq<SingleTypeModel> {
    match t {
        SingleTypeModel::EnumVariant(_, v) => v.types,
        SingleTypeModel::EnumVariantS(_, v) => v.types,
        _ => seq![t],
    }
}

/// [`noenum_single_spec`] of every alternative, joined as an ordered union.
pub open spec fn noenum_spec(s: Seq<SingleTypeModel>) -> Seq<SingleTypeModel>
    decreases s.len(),
{
    if s.len() == 0 {
        Seq::empty()
    } else {
        add_all(noenum_spec(s.drop_last()), noenum_single_spec(s.last()))
    }
}

/// `(can_fail_to_match, matches_as)` of a single type.
pub open spec fn matches_single_spec(t: SingleTypeModel) -> (bool, Seq<SingleTypeModel>) {
    match t {
        SingleTypeModel::Tuple(v) => if v.len() > 0 {
            (false, v[0].types)
        } else {
            (true, Seq::empty())
        },
        SingleTypeModel::Bool => (true, seq![SingleTypeModel::Bool]),
        SingleTypeModel::EnumVariant(..) => (true, Seq::empty()),
        SingleTypeModel::EnumVariantS(..) => (true, Seq::empty()),
        _ => (false, seq![t]),
    }
}

/// `(can_fail_to_match, matches_as)` of a type: it can fail when one of its
/// alternatives can, and matches as the ordered union of what they match as.
pub open spec fn matches_spec(s: Seq<SingleTypeModel>) -> (bool, Seq<SingleTypeModel>)
    decreases s.len(),
{
    if s.len() == 0 {
        (false, Seq::empty())
    } else {
        let (f, m) = matches_spec(s.drop_last());
        let (f2, m2) = matches_single_spec(s.last());
        (f || f2, add_all(m, m2))
    }
}

impl VSingleType {
    /// Whether this is a reference type.
    pub fn is_reference(&self) -> (r: bool)
        ensures
            r == is_ref_model(self.model()),
    {
        match self {
            VSingleType::Reference(_) => true,
            _ => false,
        }
    }

    /// The type a reference points to, or `None` for any other type.
    pub fn deref(&self) -> (r: Option<VSingleType>)
        ensures
            is_ref_model(self.model()) <==> r is Some,
            r matches Some(t) ==> t.model() == deref_model(self.model()),
    {
        if let VSingleType::Reference(v) = self {
            Some(v.deep_clone())
        } else {
            None
        }
    }

    /// The alternatives this type stands for once an enum wrapper is removed.
    pub fn noenum(self) -> (r: VType)
        ensures
            r.model().types == noenum_single_spec(self.model()),
    {
        match self {
            VSingleType::EnumVariant(_, v) => v,
            VSingleType::EnumVariantS(_, v) => v,
            v => v.to(),
        }
    }

    /// Returns `(can_fail_to_match, matches_as)`.
    pub fn matches(&self) -> (r: (bool, VType))
        ensures
            (r.0, r.1.model().types) == matches_single_spec(self.model()),
    {
        match self {
            VSingleType::Tuple(v) => {
                assert(self.model() == SingleTypeModel::Tuple(types_model(v@)));
                if v.len() > 0 {
                    assert(types_model(v@)[0] == v@[0].model());
                    (false, v[0].deep_clone())
                } else {
                    (true, VType::empty())
                }
            },
            VSingleType::Bool => (true, VSingleType::Bool.to()),
            VSingleType::EnumVariant(..) | VSingleType::EnumVariantS(..) => (true, VType::empty()),
            v => (false, v.deep_clone().to()),
        }
    }
}

impl VType {
    /// `Some(true)` or `Some(false)` when all alternatives are references or
    /// all are not; `None` when the type is empty or mixed.
    pub fn is_reference(&self) -> (r: Option<bool>)
        ensures
            r == is_reference_spec(self.model().types),
    {
        let ghost s = self.model().types;
        assert(s == singles_model(self.types@));
        let mut noref = false;
        let mut reference = false;
        let mut i: usize = 0;
        while i < self.types.len()
            invariant
                i <= self.types@.len(),
                s == singles_model(self.types@),
                s.len() == self.types@.len(),
                reference == exists|j: int| 0 <= j < i && is_ref_model(#[trigger] s[j]),
                noref == exists|j: int| 0 <= j < i && !is_ref_model(#[trigger] s[j]),
            decreases self.types@.len() - i,
        {
            if self.types[i].is_reference() {
                reference = true;
                assert(is_ref_model(s[i as int]));
            } else {
                noref = true;
                assert(!is_ref_model(s[i as int]));
            }
            i += 1;
        }
        if noref != reference {
            Some(reference)
        } else {
            None
        }
    }

    /// The type obtained by dereferencing every alternative, or `None` when one
    /// of them is not a reference.
    pub fn dereference(&self) -> (r: Option<Self>)
        ensures
            r matches Some(t) ==> dereference_spec(self.model().types) == Some(t.model().types),
            r is None ==> dereference_spec(self.model().types) is None,
    {
        let ghost s = self.model().types;
        let ghost d = s.map_values(|t: SingleTypeModel| deref_model(t));
        assert(s == singles_model(self.types@));
        let mut out = Self::empty();
        let mut i: usize = 0;
        while i < self.types.len()
            invariant
                i <= self.types@.len(),
                s == singles_model(self.types@),
                s.len() == self.types@.len(),
                d == s.map_values(|t: SingleTypeModel| deref_model(t)),
                forall|j: int| 0 <= j < i ==> is_ref_model(#[trigger] s[j]),
                out.model().types == add_all(Seq::empty(), d.take(i as int)),
            decreases self.types@.len() - i,
        {
            match self.types[i].deref() {
                Some(t) => {
                    proof { lemma_add_all_step(Seq::<SingleTypeModel>::empty(), d, i as int); }
                    assert(s[i as int] == self.types@[i as int].model());
                    assert(d[i as int] == deref_model(s[i as int]));
                    let tt = t.to();
                    proof { lemma_add_all_single(out.model().types, d[i as int]); }
                    out = out.union(tt);
                },
                None => {
                    assert(!is_ref_model(s[i as int]));
                    return None;
                },
            }
            i += 1;
        }
        assert(d.take(i as int) =~= d);
        Some(out)
    }

    /// Every alternative wrapped in a reference.
    pub fn reference(&self) -> (r: Self)
        ensures
            r.model().types == reference_spec(self.model().types),
    {
        let ghost s = self.model().types;
        assert(s == singles_model(self.types@));
        let mut types: Vec<VSingleType> = Vec::new();
        let mut i: usize = 0;
        while i < self.types.len()
            invariant
                i <= self.types@.len(),
                s == singles_model(self.types@),
                s.len() == self.types@.len(),
                types@.len() == i,
                forall|j: int| 0 <= j < i ==> (#[trigger] types@[j]).model() == SingleTypeModel::Reference(Box::new(s[j])),
            decreases self.types@.len() - i,
        {
            types.push(VSingleType::Reference(Box::new(self.types[i].deep_clone())));
            i += 1;
        }
        let r = Self { types };
        assert(r.model().types == singles_model(r.types@));
        assert(r.model().types =~= reference_spec(s));
        r
    }

    /// Returns `(can_fail_to_match, matches_as)`: whether matching a value of
    /// this type can fail, and the ordered union of what its alternatives
    /// match as.
    pub fn matches(&self) -> (r: (bool, VType))
        ensures
            (r.0, r.1.model().types) == matches_spec(self.model().types),
    {
        let ghost s = self.model().types;
        assert(s == singles_model(self.types@));
        let mut can_fail = false;
        let mut matches_as = Self::empty();
        let mut i: usize = 0;
        assert(s.take(0) =~= Seq::<SingleTypeModel>::empty());
        while i < self.types.len()
            invariant
                i <= self.types@.len(),
                s == singles_model(self.types@),
                s.len() == self.types@.len(),
                (can_fail, matches_as.model().types) == matches_spec(s.take(i as int)),
            decreases self.types@.len() - i,
        {
            assert(s.take(i + 1).drop_last() =~= s.take(i as int));
            let (f, t) = self.types[i].matches();
            can_fail = can_fail || f;
            matches_as = matches_as.union(t);
            i += 1;
        }
        assert(s.take(i as int) =~= s);
        (can_fail, matches_as)
    }

    /// The ordered union of what every alternative stands for once an enum
    /// wrapper is removed.
    pub fn noenum(self) -> (r: Self)
        ensures
            r.model().types == noenum_spec(self.model().types),
    {
        let ghost s = self.model().types;
        assert(s == singles_model(self.types@));
        let mut o = Self::empty();
        let mut i: usize = 0;
        while i < self.types.len()
            invariant
                i <= self.types@.len(),
                s == singles_model(self.types@),
                s.len() == self.types@.len(),
                o.model().types == noenum_spec(s.take(i as int)),
            decreases self.types@.len() - i,
        {
            assert(s.take(i + 1).drop_last() =~= s.take(i as int));
            o = o.union(self.types[i].deep_clone().noenum());
            i += 1;
        }
        assert(s.take(i as int) =~= s);
        o
    }
}


/// The alternatives of every value of a tuple, each added in order as with
/// [`add_all`].
pub open spec fn tuple_inner_spec(v: Seq<TypeModel>) -> Seq<SingleTypeModel>
    decreases v.len(),
{
    if v.len() == 0 {
        Seq::empty()
    } else {
        add_all(tuple_inner_spec(v.drop_last()), v.last().types)
    }
}

/// The index of the first variant of a function type that takes no
/// arguments, or `-1` when there is none.
pub open spec fn first_noarg_index(f: Seq<(Seq<SingleTypeModel>, TypeModel)>) -> int
    decreases f.len(),
{
    if f.len() == 0 {
        -1
    } else {
        let k = first_noarg_index(f.drop_last());
        if k >= 0 {
            k
        } else if f.last().0.len() == 0 {
            f.len() - 1
        } else {
            -1
        }
    }
}

pub proof fn lemma_first_noarg_index(f: Seq<(Seq<SingleTypeModel>, TypeModel)>)
    ensures
        -1 <= first_noarg_index(f) < f.len(),
        first_noarg_index(f) >= 0 ==> f[first_noarg_index(f)].0.len() == 0,
        forall|j: int| 0 <= j < f.len() && (j < first_noarg_index(f) || first_noarg_index(f) == -1) ==> (#[trigger] f[j]).0.len() != 0,
    decreases f.len(),
{
    if f.len() > 0 {
        lemma_first_noarg_index(f.drop_last());
        assert forall|j: int| 0 <= j < f.len() - 1 implies f.drop_last()[j] == #[trigger] f[j] by {}
    }
}

/// The types a `for` loop over a value of this single type yields.
pub open spec fn inner_types_spec(t: SingleTypeModel) -> Seq<SingleTypeModel>
    decreases t,
{
    match t {
        SingleTypeModel::Tuple(v) => tuple_inner_spec(v),
        SingleTypeModel::List(v) => v.types,
        SingleTypeModel::Int => seq![SingleTypeModel::Int],
        SingleTypeModel::Function(f) => {
            let k = first_noarg_index(f);
            if 0 <= k < f.len() {
                types_inner_spec(f[k].1.types)
            } else {
                Seq::empty()
            }
        },
        SingleTypeModel::Reference(r) => inner_types_ref_spec(*r),
        _ => Seq::empty(),
    }
}

/// The ordered union of [`inner_types_spec`] of every alternative.
pub open spec fn types_inner_spec(s: Seq<SingleTypeModel>) -> Seq<SingleTypeModel>
    decreases s,
{
    if s.len() == 0 {
        Seq::empty()
    } else {
        add_all(types_inner_spec(s.drop_last()), inner_types_spec(s.last()))
    }
}

/// `acc` extended, for each element of `s` in turn that `acc` does not hold,
/// by a reference to that element.
pub open spec fn ref_add_all(acc: Seq<SingleTypeModel>, s: Seq<SingleTypeModel>) -> Seq<SingleTypeModel>
    decreases s.len(),
{
    if s.len() == 0 {
        acc
    } else {
        let a = ref_add_all(acc, s.drop_last());
        if a.contains(s.last()) {
            a
        } else {
            a.push(SingleTypeModel::Reference(Box::new(s.last())))
        }
    }
}

/// [`ref_add_all`] over every value of a tuple in turn.
pub open spec fn tuple_ref_spec(v: Seq<TypeModel>) -> Seq<SingleTypeModel>
    decreases v.len(),
{
    if v.len() == 0 {
        Seq::empty()
    } else {
        ref_add_all(tuple_ref_spec(v.drop_last()), v.last().types)
    }
}

/// The types a `for` loop over a reference to a value of this type yields.
pub open spec fn inner_types_ref_spec(t: SingleTypeModel) -> Seq<SingleTypeModel>
    decreases t,
{
    match t {
        SingleTypeModel::Tuple(v) => tuple_ref_spec(v),
        SingleTypeModel::List(v) => reference_spec(v.types),
        SingleTypeModel::Reference(r) => inner_types_ref_spec(*r),
        _ => Seq::empty(),
    }
}

/// The index of the first variant of `f` that takes no arguments.
fn find_noarg(f: &Vec<(Vec<VSingleType>, VType)>) -> (r: Option<usize>)
    ensures
        r matches Some(k) ==> k < f@.len() && first_noarg_index(fns_model(f@)) == k,
        r is None ==> first_noarg_index(fns_model(f@)) == -1,
{
    let ghost fm = fns_model(f@);
    proof { lemma_first_noarg_index(fm); }
    let mut k: usize = 0;
    while k < f.len()
        invariant
            k <= f@.len(),
            fm == fns_model(f@),
            fm.len() == f@.len(),
            forall|j: int| 0 <= j < k ==> (#[trigger] fm[j]).0.len() != 0,
        decreases f@.len() - k,
    {
        assert(fm[k as int].0 == singles_model(f@[k as int].0@));
        if f[k].0.len() == 0 {
            proof {
                lemma_first_noarg_index(fm);
                let m = first_noarg_index(fm);
                if m >= 0 && m < k { assert(fm[m].0.len() != 0); }
                if m == -1 || m > k { assert(fm[k as int].0.len() != 0); }
            }
            return Some(k);
        }
        k += 1;
    }
    proof {
        let m = first_noarg_index(fm);
        if m >= 0 { assert(fm[m].0.len() != 0); }
    }
    None
}

impl VSingleType {
    /// The types that iterating over a value of this type yields.
    pub fn inner_types(&self) -> (r: Vec<VSingleType>)
        ensures
            singles_model(r@) == inner_types_spec(self.model()),
        decreases self,
    {
        match self {
            VSingleType::Tuple(v) => {
                let ghost vm = types_model(v@);
                let mut types: Vec<VSingleType> = Vec::new();
                let mut i: usize = 0;
                assert(singles_model(types@) =~= tuple_inner_spec(vm.take(0)));
                while i < v.len()
                    invariant
                        i <= v@.len(),
                        vm == types_model(v@),
                        vm.len() == v@.len(),
                        singles_model(types@) == tuple_inner_spec(vm.take(i as int)),
                    decreases v@.len() - i,
                {
                    let it = &v[i];
                    let ghost before = singles_model(types@);
                    assert(it.model() == vm[i as int]);
                    assert(it.model().types == singles_model(it.types@));
                    let mut j: usize = 0;
                    while j < it.types.len()
                        invariant
                            j <= it.types@.len(),
                            it.model().types == singles_model(it.types@),
                            it.model().types.len() == it.types@.len(),
                            singles_model(types@) == add_all(before, it.model().types.take(j as int)),
                        decreases it.types@.len() - j,
                    {
                        proof { lemma_add_all_step(before, it.model().types, j as int); }
                        push_unique(&mut types, it.types[j].deep_clone());
                        j += 1;
                    }
                    assert(it.model().types.take(j as int) =~= it.model().types);
                    assert(vm.take(i + 1).drop_last() =~= vm.take(i as int));
                    i += 1;
                }
                assert(vm.take(i as int) =~= vm);
                assert(singles_model(types@) == tuple_inner_spec(vm));
                assert(self.model() == SingleTypeModel::Tuple(vm));
                assert(inner_types_spec(self.model()) == tuple_inner_spec(vm));
                types
            },
            VSingleType::List(v) => {
                assert(v.model().types == singles_model(v.types@));
                clone_singles(&v.types)
            },
            VSingleType::Int => {
                let r = vec![VSingleType::Int];
                assert(singles_model(r@) =~= seq![SingleTypeModel::Int]);
                r
            },
            VSingleType::Function(f) => {
                let ghost fm = fns_model(f@);
                assert(self.model() == SingleTypeModel::Function(fm));
                match find_noarg(f) {
                    Some(k) => {
                        proof {
                            assert(decreases_to!(self => *f));
                            assert(decreases_to!(*f => f@));
                            assert(decreases_to!(f@ => f@[k as int]));
                            assert(decreases_to!(f@[k as int] => f@[k as int].1));
                            assert(fm[k as int].1 == f@[k as int].1.model());
                        }
                        let out = f[k].1.inner_types();
                        out.types
                    },
                    None => Vec::new(),
                }
            },
            VSingleType::Reference(r) => r.inner_types_ref(),
            _ => {
                let r: Vec<VSingleType> = Vec::new();
                assert(singles_model(r@) =~= Seq::<SingleTypeModel>::empty());
                r
            },
        }
    }

    /// The types that iterating over a reference to a value of this type yields.
    pub fn inner_types_ref(&self) -> (r: Vec<VSingleType>)
        ensures
            singles_model(r@) == inner_types_ref_spec(self.model()),
        decreases self,
    {
        match self {
            VSingleType::Tuple(v) => {
                let ghost vm = types_model(v@);
                let mut types: Vec<VSingleType> = Vec::new();
                let mut i: usize = 0;
                assert(singles_model(types@) =~= tuple_ref_spec(vm.take(0)));
                while i < v.len()
                    invariant
                        i <= v@.len(),
                        vm == types_model(v@),
                        vm.len() == v@.len(),
                        singles_model(types@) == tuple_ref_spec(vm.take(i as int)),
                    decreases v@.len() - i,
                {
                    let it = &v[i];
                    let ghost before = singles_model(types@);
                    assert(it.model() == vm[i as int]);
                    assert(it.model().types == singles_model(it.types@));
                    let mut j: usize = 0;
                    while j < it.types.len()
                        invariant
                            j <= it.types@.len(),
                            it.model().types == singles_model(it.types@),
                            it.model().types.len() == it.types@.len(),
                            singles_model(types@) == ref_add_all(before, it.model().types.take(j as int)),
                        decreases it.types@.len() - j,
                    {
                        assert(it.model().types.take(j + 1).drop_last() =~= it.model().types.take(j as int));
                        assert(it.model().types[j as int] == it.types@[j as int].model());
                        if !contains_single(&types, &it.types[j]) {
                            let ghost tm = SingleTypeModel::Reference(Box::new(it.types@[j as int].model()));
                            let ghost pre = types@;
                            types.push(VSingleType::Reference(Box::new(it.types[j].deep_clone())));
                            assert(singles_model(types@) =~= singles_model(pre).push(tm));
                        }
                        j += 1;
                    }
                    assert(it.model().types.take(j as int) =~= it.model().types);
                    assert(vm.take(i + 1).drop_last() =~= vm.take(i as int));
                    i += 1;
                }
                assert(vm.take(i as int) =~= vm);
                types
            },
            VSingleType::List(v) => {
                let r = v.reference();
                r.types
            },
            VSingleType::Reference(r) => r.inner_types_ref(),
            _ => {
                let r: Vec<VSingleType> = Vec::new();
                assert(singles_model(r@) =~= Seq::<SingleTypeModel>::empty());
                r
            },
        }
    }
}

impl VType {
    /// The ordered union of the inner types of every alternative.
    pub fn inner_types(&self) -> (r: VType)
        ensures
            r.model().types == types_inner_spec(self.model().types),
        decreases self,
    {
        let ghost s = self.model().types;
        assert(s == singles_model(self.types@));
        let mut types: Vec<VSingleType> = Vec::new();
        let mut i: usize = 0;
        assert(singles_model(types@) =~= types_inner_spec(s.take(0)));
        while i < self.types.len()
            invariant
                i <= self.types@.len(),
                s == singles_model(self.types@),
                s.len() == self.types@.len(),
                singles_model(types@) == types_inner_spec(s.take(i as int)),
            decreases self.types@.len() - i,
        {
            proof {
                assert(decreases_to!(self => self.types));
                assert(decreases_to!(self.types => self.types@));
                assert(decreases_to!(self.types@ => self.types@[i as int]));
            }
            let inner = self.types[i].inner_types();
            let ghost before = singles_model(types@);
            let ghost im = singles_model(inner@);
            assert(s[i as int] == self.types@[i as int].model());
            let mut j: usize = 0;
            while j < inner.len()
                invariant
                    j <= inner@.len(),
                    im == singles_model(inner@),
                    im.len() == inner@.len(),
                    singles_model(types@) == add_all(before, im.take(j as int)),
                decreases inner@.len() - j,
            {
                proof { lemma_add_all_step(before, im, j as int); }
                push_unique(&mut types, inner[j].deep_clone());
                j += 1;
            }
            assert(im.take(j as int) =~= im);
            assert(s.take(i + 1).drop_last() =~= s.take(i as int));
            i += 1;
        }
        assert(s.take(i as int) =~= s);
        VType { types }
    }
}


/// Entries of a [`NameMap`] as `(name, id)` pairs.
pub type NameEntries = Seq<(Seq<char>, usize)>;

/// A single type with every named enum variant (`EnumVariantS`) replaced by
/// the numbered one (`EnumVariant`) whose id `m` holds for the name; unknown
/// names get the next free id. The type is walked left to right, a variant's
/// name before its inner type. Returns the new type and the new entries.
pub open spec fn ev_single_spec(t: SingleTypeModel, m: NameEntries) -> (SingleTypeModel, NameEntries)
    decreases t,
{
    match t {
        SingleTypeModel::Tuple(v) => {
            let (v2, m2) = ev_types_spec(v, m);
            (SingleTypeModel::Tuple(v2), m2)
        },
        SingleTypeModel::List(x) => {
            let (x2, m2) = ev_singles_spec(x.types, m);
            (SingleTypeModel::List(TypeModel { types: x2 }), m2)
        },
        SingleTypeModel::Function(f) => {
            let (f2, m2) = ev_fns_spec(f, m);
            (SingleTypeModel::Function(f2), m2)
        },
        SingleTypeModel::Thread(x) => {
            let (x2, m2) = ev_singles_spec(x.types, m);
            (SingleTypeModel::Thread(TypeModel { types: x2 }), m2)
        },
        SingleTypeModel::Reference(b) => {
            let (b2, m2) = ev_single_spec(*b, m);
            (SingleTypeModel::Reference(Box::new(b2)), m2)
        },
        SingleTypeModel::EnumVariant(e, x) => {
            let (x2, m2) = ev_singles_spec(x.types, m);
            (SingleTypeModel::EnumVariant(e, TypeModel { types: x2 }), m2)
        },
        SingleTypeModel::EnumVariantS(e, x) => {
            let (id, m1) = id_for_spec(m, e);
            let (x2, m2) = ev_singles_spec(x.types, m1);
            (SingleTypeModel::EnumVariant(id, TypeModel { types: x2 }), m2)
        },
        _ => (t, m),
    }
}

/// [`ev_single_spec`] over the alternatives of a type, left to right.
pub open spec fn ev_singles_spec(s: Seq<SingleTypeModel>, m: NameEntries) -> (Seq<SingleTypeModel>, NameEntries)
    decreases s,
{
    if s.len() == 0 {
        (Seq::empty(), m)
    } else {
        let (a, m1) = ev_singles_spec(s.drop_last(), m);
        let (b, m2) = ev_single_spec(s.last(), m1);
        (a.push(b), m2)
    }
}

/// [`ev_single_spec`] over the values of a tuple type, left to right.
pub open spec fn ev_types_spec(s: Seq<TypeModel>, m: NameEntries) -> (Seq<TypeModel>, NameEntries)
    decreases s,
{
    if s.len() == 0 {
        (Seq::empty(), m)
    } else {
        let (a, m1) = ev_types_spec(s.drop_last(), m);
        let (b, m2) = ev_singles_spec(s.last().types, m1);
        (a.push(TypeModel { types: b }), m2)
    }
}

/// [`ev_single_spec`] over the variants of a function type: for each, its
/// arguments left to right, then its output.
pub open spec fn ev_fns_spec(s: Seq<(Seq<SingleTypeModel>, TypeModel)>, m: NameEntries) -> (Seq<(Seq<SingleTypeModel>, TypeModel)>, NameEntries)
    decreases s,
{
    if s.len() == 0 {
        (Seq::empty(), m)
    } else {
        let (a, m1) = ev_fns_spec(s.drop_last(), m);
        let (args, m2) = ev_singles_spec(s.last().0, m1);
        let (out, m3) = ev_singles_spec(s.last().1.types, m2);
        (a.push((args, TypeModel { types: out })), m3)
    }
}

fn ev_single(t: VSingleType, ev: &mut NameMap) -> (r: VSingleType)
    ensures
        (r.model(), final(ev)@) == ev_single_spec(t.model(), old(ev)@),
    decreases t,
{
    let ghost t0 = t;
    match t {
        VSingleType::Tuple(v) => {
            proof { assert(decreases_to!(t0 => v)); }
            VSingleType::Tuple(ev_types(v, ev))
        },
        VSingleType::List(x) => {
            proof { assert(decreases_to!(t0 => x)); }
            VSingleType::List(ev_type(x, ev))
        },
        VSingleType::Function(f) => {
            proof { assert(decreases_to!(t0 => f)); }
            VSingleType::Function(ev_fns(f, ev))
        },
        VSingleType::Thread(x) => {
            proof { assert(decreases_to!(t0 => x)); }
            VSingleType::Thread(ev_type(x, ev))
        },
        VSingleType::Reference(b) => {
            proof { assert(decreases_to!(t0 => b)); }
            VSingleType::Reference(Box::new(ev_single(*b, ev)))
        },
        VSingleType::EnumVariant(e, x) => {
            proof { assert(decreases_to!(t0 => x)); }
            VSingleType::EnumVariant(e, ev_type(x, ev))
        },
        VSingleType::EnumVariantS(e, x) => {
            proof { assert(decreases_to!(t0 => x)); }
            let id = ev.id_for(&e);
            VSingleType::EnumVariant(id, ev_type(x, ev))
        },
        other => other,
    }
}

fn ev_type(t: VType, ev: &mut NameMap) -> (r: VType)
    ensures
        (r.model().types, final(ev)@) == ev_singles_spec(t.model().types, old(ev)@),
    decreases t,
{
    let ghost t0 = t;
    proof { assert(decreases_to!(t0 => t0.types)); }
    let types = ev_singles(t.types, ev);
    VType { types }
}

#[verifier::loop_isolation(false)]
fn ev_singles(v: Vec<VSingleType>, ev: &mut NameMap) -> (r: Vec<VSingleType>)
    ensures
        (singles_model(r@), final(ev)@) == ev_singles_spec(singles_model(v@), old(ev)@),
    decreases v,
{
    let ghost v0 = v;
    let ghost s = singles_model(v@);
    let mut v = v;
    let mut out: Vec<VSingleType> = Vec::new();
    let mut i: usize = 0;
    assert(s.take(0) =~= Seq::<SingleTypeModel>::empty());
    assert(singles_model(out@) =~= Seq::<SingleTypeModel>::empty());
    while i < v.len()
        invariant
            i <= v@.len(),
            v@.len() == v0@.len(),
            s == singles_model(v0@),
            s.len() == v0@.len(),
            forall|j: int| i <= j < v@.len() ==> v@[j] == v0@[j],
            (singles_model(out@), ev@) == ev_singles_spec(s.take(i as int), old(ev)@),
        decreases v@.len() - i,
    {
        let mut t = VSingleType::Bool;
        v.set_and_swap(i, &mut t);
        proof {
            assert(t == v0@[i as int]);
            assert(decreases_to!(v0 => v0@));
            assert(decreases_to!(v0@ => v0@[i as int]));
            assert(s.take(i + 1).drop_last() =~= s.take(i as int));
        }
        let ghost pre = out@;
        let r = ev_single(t, ev);
        out.push(r);
        assert(singles_model(out@) =~= singles_model(pre).push(r.model()));
        i += 1;
    }
    assert(s.take(i as int) =~= s);
    out
}

#[verifier::loop_isolation(false)]
fn ev_types(v: Vec<VType>, ev: &mut NameMap) -> (r: Vec<VType>)
    ensures
        (types_model(r@), final(ev)@) == ev_types_spec(types_model(v@), old(ev)@),
    decreases v,
{
    let ghost v0 = v;
    let ghost s = types_model(v@);
    let mut v = v;
    let mut out: Vec<VType> = Vec::new();
    let mut i: usize = 0;
    assert(s.take(0) =~= Seq::<TypeModel>::empty());
    assert(types_model(out@) =~= Seq::<TypeModel>::empty());
    while i < v.len()
        invariant
            i <= v@.len(),
            v@.len() == v0@.len(),
            s == types_model(v0@),
            s.len() == v0@.len(),
            forall|j: int| i <= j < v@.len() ==> v@[j] == v0@[j],
            (types_model(out@), ev@) == ev_types_spec(s.take(i as int), old(ev)@),
        decreases v@.len() - i,
    {
        let mut t = VType { types: Vec::new() };
        v.set_and_swap(i, &mut t);
        proof {
            assert(t == v0@[i as int]);
            assert(decreases_to!(v0 => v0@));
            assert(decreases_to!(v0@ => v0@[i as int]));
            assert(s.take(i + 1).drop_last() =~= s.take(i as int));
        }
        let ghost pre = out@;
        let r = ev_type(t, ev);
        out.push(r);
        assert(types_model(out@) =~= types_model(pre).push(r.model()));
        i += 1;
    }
    assert(s.take(i as int) =~= s);
    out
}

#[verifier::loop_isolation(false)]
fn ev_fns(v: Vec<(Vec<VSingleType>, VType)>, ev: &mut NameMap) -> (r: Vec<(Vec<VSingleType>, VType)>)
    ensures
        (fns_model(r@), final(ev)@) == ev_fns_spec(fns_model(v@), old(ev)@),
    decreases v,
{
    let ghost v0 = v;
    let ghost s = fns_model(v@);
    let mut v = v;
    let mut out: Vec<(Vec<VSingleType>, VType)> = Vec::new();
    let mut i: usize = 0;
    assert(s.take(0) =~= Seq::<(Seq<SingleTypeModel>, TypeModel)>::empty());
    assert(fns_model(out@) =~= Seq::<(Seq<SingleTypeModel>, TypeModel)>::empty());
    while i < v.len()
        invariant
            i <= v@.len(),
            v@.len() == v0@.len(),
            s == fns_model(v0@),
            s.len() == v0@.len(),
            forall|j: int| i <= j < v@.len() ==> v@[j] == v0@[j],
            (fns_model(out@), ev@) == ev_fns_spec(s.take(i as int), old(ev)@),
        decreases v@.len() - i,
    {
        let mut t: (Vec<VSingleType>, VType) = (Vec::new(), VType { types: Vec::new() });
        v.set_and_swap(i, &mut t);
        proof {
            assert(t == v0@[i as int]);
            assert(decreases_to!(v0 => v0@));
            assert(decreases_to!(v0@ => v0@[i as int]));
            assert(decreases_to!(v0@[i as int] => v0@[i as int].0));
            assert(decreases_to!(v0@[i as int] => v0@[i as int].1));
            assert(s.take(i + 1).drop_last() =~= s.take(i as int));
        }
        let (args, outt) = t;
        let ghost pre = out@;
        let args2 = ev_singles(args, ev);
        let out2 = ev_type(outt, ev);
        let ghost e = (singles_model(args2@), out2.model());
        out.push((args2, out2));
        assert(fns_model(out@) =~= fns_model(pre).push(e));
        i += 1;
    }
    assert(s.take(i as int) =~= s);
    out
}

impl VSingleType {
    /// Replaces every named enum variant (`EnumVariantS`) by the numbered one
    /// (`EnumVariant`), taking ids from `enum_variants` and adding names it
    /// does not know with the next free id.
    pub fn enum_variants(&mut self, enum_variants: &mut NameMap)
        ensures
            (final(self).model(), final(enum_variants)@) == ev_single_spec(old(self).model(), old(enum_variants)@),
    {
        let mut t = VSingleType::Bool;
        std::mem::swap(self, &mut t);
        *self = ev_single(t, enum_variants);
    }
}

impl VType {
    /// [`VSingleType::enum_variants`] on every alternative, left to right.
    pub fn enum_variants(&mut self, enum_variants: &mut NameMap)
        ensures
            (final(self).model().types, final(enum_variants)@) == ev_singles_spec(old(self).model().types, old(enum_variants)@),
    {
        let mut t = VType { types: Vec::new() };
        std::mem::swap(self, &mut t);
        *self = ev_type(t, enum_variants);
    }
}


/// Dereferencing the reference of a type gives the type back, provided it
/// holds no alternative twice.
pub proof fn law_dereference_of_reference(t: VType)
    requires
        no_dups(t.model().types),
    ensures
        dereference_spec(reference_spec(t.model().types)) == Some(t.model().types),
{
    let s = t.model().types;
    let r = reference_spec(s);
    assert forall|i: int| 0 <= i < r.len() implies is_ref_model(#[trigger] r[i]) by {}
    let d = r.map_values(|x: SingleTypeModel| deref_model(x));
    assert(d =~= s);
    lemma_add_all_fresh(Seq::<SingleTypeModel>::empty(), s);
    assert(Seq::<SingleTypeModel>::empty() + s =~= s);
}

/// The reference of a type with at least one alternative is a reference type;
/// an empty type is neither.
pub proof fn law_reference_is_reference(t: VType)
    ensures
        t.model().types.len() > 0 ==> is_reference_spec(reference_spec(t.model().types)) == Some(true),
        t.model().types.len() == 0 ==> is_reference_spec(reference_spec(t.model().types)) is None,
{
    let r = reference_spec(t.model().types);
    if r.len() > 0 {
        assert(is_ref_model(r[0]));
    }
}

/// The union of two types holds exactly the alternatives of either, keeps the
/// left operand's alternatives first and in order, and holds no alternative
/// twice when the left operand does not.
pub proof fn law_union(a: VType, b: VType)
    ensures
        forall|x: SingleTypeModel| add_all(a.model().types, b.model().types).contains(x) <==> (a.model().types.contains(x) || b.model().types.contains(x)),
        add_all(a.model().types, b.model().types).take(a.model().types.len() as int) == a.model().types,
        no_dups(a.model().types) ==> no_dups(add_all(a.model().types, b.model().types)),
{
    assert forall|x: SingleTypeModel| add_all(a.model().types, b.model().types).contains(x) <==> (a.model().types.contains(x) || b.model().types.contains(x)) by {
        lemma_add_all_contains(a.model().types, b.model().types, x);
    }
    lemma_add_all_prefix(a.model().types, b.model().types);
    if no_dups(a.model().types) {
        lemma_add_all_no_dups(a.model().types, b.model().types);
    }
}

/// The union of a type with itself, or with the empty type, is that type,
/// provided it holds no alternative twice.
pub proof fn law_union_idempotent(a: VType)
    requires
        no_dups(a.model().types),
    ensures
        add_all(a.model().types, a.model().types) == a.model().types,
        add_all(a.model().types, Seq::<SingleTypeModel>::empty()) == a.model().types,
{
    let s = a.model().types;
    assert forall|i: int| 0 <= i < s.len() implies s.contains(#[trigger] s[i]) by {}
    lemma_add_all_present(s, s);
}

} // verus!
