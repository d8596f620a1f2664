//! What giving enum variants their ids does to a type: no named variant is
//! left, and a type without named variants stays as it is.
use vstd::prelude::*;
use crate::script::type_model::{SingleTypeModel, TypeModel};
use crate::script::val_type::{NameEntries, ev_fns_spec, ev_single_spec, ev_singles_spec, ev_types_spec};
use crate::name_map::{id_for_spec, last_index, lookup};

verus! {

/// `t` holds no enum variant that is still named rather than numbered.
pub open spec fn names_resolved(t: SingleTypeModel) -> bool
    decreases t,
{
    match t {
        SingleTypeModel::Tuple(v) => names_resolved_types(v),
        SingleTypeModel::List(x) => names_resolved_singles(x.types),
        SingleTypeModel::Function(f) => names_resolved_fns(f),
        SingleTypeModel::Thread(x) => names_resolved_singles(x.types),
        SingleTypeModel::Reference(r) => names_resolved(*r),
        SingleTypeModel::EnumVariant(_, x) => names_resolved_singles(x.types),
        SingleTypeModel::EnumVariantS(..) => false,
        _ => true,
    }
}

/// [`names_resolved`] for every alternative.
pub open spec fn names_resolved_singles(s: Seq<SingleTypeModel>) -> bool
    decreases s,
{
    s.len() == 0 || (names_resolved_singles(s.drop_last()) && names_resolved(s.last()))
}

/// [`names_resolved`] for every alternative of every value.
pub open spec fn names_resolved_types(v: Seq<TypeModel>) -> bool
    decreases v,
{
    v.len() == 0 || (names_resolved_types(v.drop_last()) && names_resolved_singles(v.last().types))
}

/// [`names_resolved`] for the arguments and outputs of every variant.
pub open spec fn names_resolved_fns(f: Seq<(Seq<SingleTypeModel>, TypeModel)>) -> bool
    decreases f,
{
    f.len() == 0 || (names_resolved_fns(f.drop_last()) && names_resolved_singles(f.last().0) && names_resolved_singles(f.last().1.types))
}

proof fn lemma_single_resolves(t: SingleTypeModel, m: NameEntries)
    ensures
        names_resolved(ev_single_spec(t, m).0),
    decreases t,
{
    match t {
        SingleTypeModel::Tuple(v) => lemma_types_resolve(v, m),
        SingleTypeModel::List(x) => lemma_singles_resolve(x.types, m),
        SingleTypeModel::Function(f) => lemma_fns_resolve(f, m),
        SingleTypeModel::Thread(x) => lemma_singles_resolve(x.types, m),
        SingleTypeModel::Reference(r) => lemma_single_resolves(*r, m),
        SingleTypeModel::EnumVariant(_, x) => lemma_singles_resolve(x.types, m),
        SingleTypeModel::EnumVariantS(e, x) => {
            let m1 = crate::name_map::id_for_spec(m, e).1;
            lemma_singles_resolve(x.types, m1);
        },
        _ => {},
    }
}

proof fn lemma_singles_resolve(s: Seq<SingleTypeModel>, m: NameEntries)
    ensures
        names_resolved_singles(ev_singles_spec(s, m).0),
    decreases s,
{
    if s.len() > 0 {
        let (a, m1) = ev_singles_spec(s.drop_last(), m);
        let b = ev_single_spec(s.last(), m1).0;
        lemma_singles_resolve(s.drop_last(), m);
        lemma_single_resolves(s.last(), m1);
        assert(a.push(b).drop_last() =~= a);
    }
}

proof fn lemma_types_resolve(v: Seq<TypeModel>, m: NameEntries)
    ensures
        names_resolved_types(ev_types_spec(v, m).0),
    decreases v,
{
    if v.len() > 0 {
        let (a, m1) = ev_types_spec(v.drop_last(), m);
        let b = ev_singles_spec(v.last().types, m1).0;
        lemma_types_resolve(v.drop_last(), m);
        lemma_singles_resolve(v.last().types, m1);
        assert(a.push(TypeModel { types: b }).drop_last() =~= a);
    }
}

proof fn lemma_fns_resolve(f: Seq<(Seq<SingleTypeModel>, TypeModel)>, m: NameEntries)
    ensures
        names_resolved_fns(ev_fns_spec(f, m).0),
    decreases f,
{
    if f.len() > 0 {
        let (a, m1) = ev_fns_spec(f.drop_last(), m);
        let (args, m2) = ev_singles_spec(f.last().0, m1);
        let out = ev_singles_spec(f.last().1.types, m2).0;
        lemma_fns_resolve(f.drop_last(), m);
        lemma_singles_resolve(f.last().0, m1);
        lemma_singles_resolve(f.last().1.types, m2);
        assert(a.push((args, TypeModel { types: out })).drop_last() =~= a);
    }
}

proof fn lemma_single_unchanged(t: SingleTypeModel, m: NameEntries)
    requires
        names_resolved(t),
    ensures
        ev_single_spec(t, m) == (t, m),
    decreases t,
{
    match t {
        SingleTypeModel::Tuple(v) => lemma_types_unchanged(v, m),
        SingleTypeModel::List(x) => lemma_singles_unchanged(x.types, m),
        SingleTypeModel::Function(f) => lemma_fns_unchanged(f, m),
        SingleTypeModel::Thread(x) => lemma_singles_unchanged(x.types, m),
        SingleTypeModel::Reference(r) => lemma_single_unchanged(*r, m),
        SingleTypeModel::EnumVariant(_, x) => lemma_singles_unchanged(x.types, m),
        _ => {},
    }
}

proof fn lemma_singles_unchanged(s: Seq<SingleTypeModel>, m: NameEntries)
    requires
        names_resolved_singles(s),
    ensures
        ev_singles_spec(s, m) == (s, m),
    decreases s,
{
    if s.len() > 0 {
        lemma_singles_unchanged(s.drop_last(), m);
        lemma_single_unchanged(s.last(), m);
        assert(s.drop_last().push(s.last()) =~= s);
    }
}

proof fn lemma_types_unchanged(v: Seq<TypeModel>, m: NameEntries)
    requires
        names_resolved_types(v),
    ensures
        ev_types_spec(v, m) == (v, m),
    decreases v,
{
    if v.len() > 0 {
        lemma_types_unchanged(v.drop_last(), m);
        lemma_singles_unchanged(v.last().types, m);
        assert(v.drop_last().push(TypeModel { types: v.last().types }) =~= v);
    }
}

proof fn lemma_fns_unchanged(f: Seq<(Seq<SingleTypeModel>, TypeModel)>, m: NameEntries)
    requires
        names_resolved_fns(f),
    ensures
        ev_fns_spec(f, m) == (f, m),
    decreases f,
{
    if f.len() > 0 {
        lemma_fns_unchanged(f.drop_last(), m);
        lemma_singles_unchanged(f.last().0, m);
        lemma_singles_unchanged(f.last().1.types, m);
        assert(f.drop_last().push((f.last().0, TypeModel { types: f.last().1.types })) =~= f);
    }
}

/// After enum variants get their ids, no named variant is left in a type, and
/// doing it again changes neither the type nor the ids.
pub proof fn law_enum_variants_resolve(s: Seq<SingleTypeModel>, m: NameEntries)
    ensures
        names_resolved_singles(ev_singles_spec(s, m).0),
        ev_singles_spec(ev_singles_spec(s, m).0, ev_singles_spec(s, m).1) == ev_singles_spec(s, m),
{
    lemma_singles_resolve(s, m);
    lemma_singles_unchanged(ev_singles_spec(s, m).0, ev_singles_spec(s, m).1);
}

/// A type without named enum variants is left as it is, and so are the ids.
pub proof fn law_enum_variants_keep_resolved(s: Seq<SingleTypeModel>, m: NameEntries)
    requires
        names_resolved_singles(s),
    ensures
        ev_singles_spec(s, m) == (s, m),
{
    lemma_singles_unchanged(s, m);
}

/// `m2` is `m` with entries appended, each for a name that no earlier entry
/// has, with its position (as a `usize`) as its id: what giving ids to new
/// names does.
pub open spec fn ids_extend(m: NameEntries, m2: NameEntries) -> bool {
    &&& m.len() <= m2.len()
    &&& m2.take(m.len() as int) == m
    &&& forall|k: int| #![trigger m2[k]] m.len() <= k < m2.len() ==> m2[k].1 == k as usize && lookup(m2.take(k), m2[k].0) is None
}

proof fn lemma_extend_refl(m: NameEntries)
    ensures
        ids_extend(m, m),
{
    assert(m.take(m.len() as int) =~= m);
}

proof fn lemma_extend_trans(a: NameEntries, b: NameEntries, c: NameEntries)
    requires
        ids_extend(a, b),
        ids_extend(b, c),
    ensures
        ids_extend(a, c),
{
    assert(c.take(a.len() as int) =~= b.take(a.len() as int)) by {
        assert forall|i: int| 0 <= i < a.len() implies c.take(a.len() as int)[i] == b.take(a.len() as int)[i] by {
            assert(c.take(b.len() as int)[i] == c[i]);
        }
    }
    assert forall|k: int| #![trigger c[k]] a.len() <= k < c.len() implies c[k].1 == k as usize && lookup(c.take(k), c[k].0) is None by {
        if k < b.len() {
            assert(c.take(b.len() as int)[k] == c[k]);
            assert(c.take(k) =~= b.take(k));
            assert(b[k] == c[k]);
        }
    }
}

proof fn lemma_id_for_extends(m: NameEntries, name: Seq<char>)
    ensures
        ids_extend(m, id_for_spec(m, name).1),
{
    let m2 = id_for_spec(m, name).1;
    if lookup(m, name) is None {
        assert(m2.take(m.len() as int) =~= m);
        assert forall|k: int| #![trigger m2[k]] m.len() <= k < m2.len() implies m2[k].1 == k as usize && lookup(m2.take(k), m2[k].0) is None by {
            assert(k == m.len());
            assert(m2.take(k) =~= m);
        }
    } else {
        lemma_extend_refl(m);
    }
}

proof fn lemma_single_extends(t: SingleTypeModel, m: NameEntries)
    ensures
        ids_extend(m, ev_single_spec(t, m).1),
    decreases t,
{
    match t {
        SingleTypeModel::Tuple(v) => lemma_types_extend(v, m),
        SingleTypeModel::List(x) => lemma_singles_extend(x.types, m),
        SingleTypeModel::Function(f) => lemma_fns_extend(f, m),
        SingleTypeModel::Thread(x) => lemma_singles_extend(x.types, m),
        SingleTypeModel::Reference(r) => lemma_single_extends(*r, m),
        SingleTypeModel::EnumVariant(_, x) => lemma_singles_extend(x.types, m),
        SingleTypeModel::EnumVariantS(e, x) => {
            let m1 = id_for_spec(m, e).1;
            lemma_id_for_extends(m, e);
            lemma_singles_extend(x.types, m1);
            lemma_extend_trans(m, m1, ev_singles_spec(x.types, m1).1);
        },
        _ => lemma_extend_refl(m),
    }
}

proof fn lemma_singles_extend(s: Seq<SingleTypeModel>, m: NameEntries)
    ensures
        ids_extend(m, ev_singles_spec(s, m).1),
    decreases s,
{
    if s.len() > 0 {
        let m1 = ev_singles_spec(s.drop_last(), m).1;
        lemma_singles_extend(s.drop_last(), m);
        lemma_single_extends(s.last(), m1);
        lemma_extend_trans(m, m1, ev_single_spec(s.last(), m1).1);
    } else {
        lemma_extend_refl(m);
    }
}

proof fn lemma_types_extend(v: Seq<TypeModel>, m: NameEntries)
    ensures
        ids_extend(m, ev_types_spec(v, m).1),
    decreases v,
{
    if v.len() > 0 {
        let m1 = ev_types_spec(v.drop_last(), m).1;
        lemma_types_extend(v.drop_last(), m);
        lemma_singles_extend(v.last().types, m1);
        lemma_extend_trans(m, m1, ev_singles_spec(v.last().types, m1).1);
    } else {
        lemma_extend_refl(m);
    }
}

proof fn lemma_fns_extend(f: Seq<(Seq<SingleTypeModel>, TypeModel)>, m: NameEntries)
    ensures
        ids_extend(m, ev_fns_spec(f, m).1),
    decreases f,
{
    if f.len() > 0 {
        let m1 = ev_fns_spec(f.drop_last(), m).1;
        let m2 = ev_singles_spec(f.last().0, m1).1;
        lemma_fns_extend(f.drop_last(), m);
        lemma_singles_extend(f.last().0, m1);
        lemma_singles_extend(f.last().1.types, m2);
        lemma_extend_trans(m, m1, m2);
        lemma_extend_trans(m, m2, ev_singles_spec(f.last().1.types, m2).1);
    } else {
        lemma_extend_refl(m);
    }
}

proof fn lemma_extend_lookup(m: NameEntries, m2: NameEntries, name: Seq<char>)
    requires
        ids_extend(m, m2),
        lookup(m, name) is Some,
    ensures
        lookup(m2, name) == lookup(m, name),
    decreases m2.len() - m.len(),
{
    if m2.len() == m.len() {
        assert(m2 =~= m2.take(m.len() as int));
    } else {
        let p = m2.drop_last();
        let k = m2.len() - 1;
        assert(p.take(m.len() as int) =~= m2.take(m.len() as int));
        assert forall|j: int| #![trigger p[j]] m.len() <= j < p.len() implies p[j].1 == j as usize && lookup(p.take(j), p[j].0) is None by {
            assert(p[j] == m2[j]);
            assert(p.take(j) =~= m2.take(j));
        }
        lemma_extend_lookup(m, p, name);
        assert(m2[k].1 == k as usize && lookup(m2.take(k), m2[k].0) is None);
        assert(m2.take(k) =~= p);
        assert(m2.last().0 != name);
        assert(last_index(m2, name) == last_index(p, name));
        crate::name_map::lemma_last_index(p, name);
        assert(m2[last_index(p, name)] == p[last_index(p, name)]);
    }
}

/// Giving enum variants their ids keeps every entry the map had, with its
/// id, and only appends: each new entry is for a name not known before it,
/// and its id is its position, so new names get the next ids in the order
/// in which they first occur.
pub proof fn law_enum_variant_ids(s: Seq<SingleTypeModel>, m: NameEntries)
    ensures
        ids_extend(m, ev_singles_spec(s, m).1),
        forall|name: Seq<char>| lookup(m, name) is Some ==> #[trigger] lookup(ev_singles_spec(s, m).1, name) == lookup(m, name),
{
    lemma_singles_extend(s, m);
    assert forall|name: Seq<char>| lookup(m, name) is Some implies #[trigger] lookup(ev_singles_spec(s, m).1, name) == lookup(m, name) by {
        lemma_extend_lookup(m, ev_singles_spec(s, m).1, name);
    }
}

} // verus!
