//! Preparing parsed types for running: named enum variants get their ids.
use vstd::prelude::*;
use crate::name_map::{NameMap, id_for_spec};
use crate::script::type_model::{SingleTypeModel, TypeModel, singles_model, types_model};
use crate::script::val_type::{NameEntries, VSingleType, VType};

verus! {

broadcast use crate::script::type_model::group_model_lemmas;

/// What every script shares while it is prepared: the number of variables
/// so far, where each library function is found, and the ids of the enum
/// variants.
pub struct GInfo {
    vars: usize,
    lib_fns: Vec<(String, usize, usize)>,
    pub enum_variants: NameMap,
}

/// The functions the libraries register, as `(name, library, position)`:
/// library by library, and within a library in the order it lists them.
pub open spec fn lib_fn_entries(names: Seq<Seq<Seq<char>>>) -> Seq<(Seq<char>, usize, usize)>
    decreases names.len(),
{
    if names.len() == 0 {
        Seq::empty()
    } else {
        lib_fn_entries(names.drop_last()) + Seq::new(
            names.last().len(),
            |k: int| (names.last()[k], (names.len() - 1) as usize, k as usize),
        )
    }
}

/// Where the function `name` is found: the library and position of its last
/// entry, as later registrations replace earlier ones.
pub open spec fn lib_fn_lookup(e: Seq<(Seq<char>, usize, usize)>, name: Seq<char>) -> Option<(usize, usize)>
    decreases e.len(),
{
    if e.len() == 0 {
        None
    } else if e.last().0 == name {
        Some((e.last().1, e.last().2))
    } else {
        lib_fn_lookup(e.drop_last(), name)
    }
}

proof fn lemma_lookup_concat(a: Seq<(Seq<char>, usize, usize)>, b: Seq<(Seq<char>, usize, usize)>, name: Seq<char>)
    ensures
        lib_fn_lookup(a + b, name) == (match lib_fn_lookup(b, name) {
            Some(r) => Some(r),
            None => lib_fn_lookup(a, name),
        }),
    decreases b.len(),
{
    if b.len() == 0 {
        assert(a + b =~= a);
    } else {
        assert((a + b).drop_last() =~= a + b.drop_last());
        assert((a + b).last() == b.last());
        lemma_lookup_concat(a, b.drop_last(), name);
    }
}

proof fn lemma_lookup_last(e: Seq<(Seq<char>, usize, usize)>, name: Seq<char>)
    ensures
        match lib_fn_lookup(e, name) {
            Some((x, y)) => exists|j: int| 0 <= j < e.len() && e[j].0 == name && e[j].1 == x && e[j].2 == y
                && forall|j2: int| j < j2 < e.len() ==> (#[trigger] e[j2]).0 != name,
            None => forall|j: int| 0 <= j < e.len() ==> (#[trigger] e[j]).0 != name,
        },
    decreases e.len(),
{
    if e.len() > 0 {
        lemma_lookup_last(e.drop_last(), name);
        let d = e.drop_last();
        if e.last().0 == name {
            let j = e.len() - 1;
            assert(e[j].0 == name);
        } else {
            match lib_fn_lookup(d, name) {
                Some((x, y)) => {
                    let j = choose|j: int| 0 <= j < d.len() && d[j].0 == name && d[j].1 == x && d[j].2 == y
                        && forall|j2: int| j < j2 < d.len() ==> (#[trigger] d[j2]).0 != name;
                    assert(e[j] == d[j]);
                    assert forall|j2: int| j < j2 < e.len() implies (#[trigger] e[j2]).0 != name by {
                        if j2 < d.len() {
                            assert(e[j2] == d[j2]);
                        }
                    }
                },
                None => {
                    assert forall|j: int| 0 <= j < e.len() implies (#[trigger] e[j]).0 != name by {
                        if j < d.len() {
                            assert(e[j] == d[j]);
                        }
                    }
                },
            }
        }
    }
}

/// Looking a library function up by name finds the last library that
/// registers the name, and in it the last position that does; where no
/// library registers it, nothing is found.
pub proof fn law_lib_fn_lookup(names: Seq<Seq<Seq<char>>>, name: Seq<char>)
    requires
        names.len() <= usize::MAX,
        forall|l: int| 0 <= l < names.len() ==> (#[trigger] names[l]).len() <= usize::MAX,
    ensures
        match lib_fn_lookup(lib_fn_entries(names), name) {
            Some((l, k)) => l < names.len() && k < names[l as int].len() && names[l as int][k as int] == name
                && (forall|k2: int| k < k2 < names[l as int].len() ==> names[l as int][k2] != name)
                && (forall|l2: int, k2: int| l < l2 < names.len() && 0 <= k2 < names[l2].len() ==> names[l2][k2] != name),
            None => forall|l: int, k: int| 0 <= l < names.len() && 0 <= k < names[l].len() ==> names[l][k] != name,
        },
    decreases names.len(),
{
    if names.len() > 0 {
        let n = names.len();
        let d = names.drop_last();
        let last = names.last();
        let sn = Seq::new(last.len(), |k: int| (last[k], (n - 1) as usize, k as usize));
        assert forall|l: int| 0 <= l < d.len() implies (#[trigger] d[l]).len() <= usize::MAX by {
            assert(d[l] == names[l]);
        }
        law_lib_fn_lookup(d, name);
        lemma_lookup_concat(lib_fn_entries(d), sn, name);
        lemma_lookup_last(sn, name);
        assert(lib_fn_entries(names) == lib_fn_entries(d) + sn);
        match lib_fn_lookup(sn, name) {
            Some((x, y)) => {
                let j = choose|j: int| 0 <= j < sn.len() && sn[j].0 == name && sn[j].1 == x && sn[j].2 == y
                    && forall|j2: int| j < j2 < sn.len() ==> (#[trigger] sn[j2]).0 != name;
                assert(x as int == n - 1 && y as int == j);
                assert(names[n - 1] == last);
                assert forall|k2: int| y < k2 < names[x as int].len() implies names[x as int][k2] != name by {
                    assert(sn[k2].0 == last[k2]);
                }
            },
            None => {
                assert forall|k: int| 0 <= k < last.len() implies last[k] != name by {
                    assert(sn[k].0 == last[k]);
                }
                match lib_fn_lookup(lib_fn_entries(d), name) {
                    Some((l, k)) => {
                        assert(names[l as int] == d[l as int]);
                        assert forall|l2: int, k2: int| l < l2 < names.len() && 0 <= k2 < names[l2].len() implies names[l2][k2] != name by {
                            if l2 < d.len() {
                                assert(names[l2] == d[l2]);
                            }
                        }
                    },
                    None => {
                        assert forall|l: int, k: int| 0 <= l < names.len() && 0 <= k < names[l].len() implies names[l][k] != name by {
                            if l < d.len() {
                                assert(names[l] == d[l]);
                            }
                        }
                    },
                }
            },
        }
    }
}

impl GInfo {
    /// The number of variables so far.
    pub closed spec fn vars_spec(&self) -> usize {
        self.vars
    }

    /// The enum variant ids.
    pub closed spec fn ev_spec(&self) -> Seq<(Seq<char>, usize)> {
        self.enum_variants@
    }

    /// The enum variants every script knows: `Err`, with id 0.
    pub fn default_enum_variants() -> (r: NameMap)
        ensures
            r@ == seq![("Err"@, 0usize)],
    {
        let mut m = NameMap::new();
        m.insert(String::from_str("Err"), 0);
        assert(m@ =~= seq![("Err"@, 0usize)]);
        m
    }

    /// The library function entries, in the order they were registered.
    pub closed spec fn lib_fns_spec(&self) -> Seq<(Seq<char>, usize, usize)> {
        self.lib_fns@.map_values(|e: (String, usize, usize)| (e.0@, e.1, e.2))
    }

    /// No variables yet, the functions that the libraries register (the
    /// names of each library's functions, library by library), and the given
    /// enum variants.
    pub fn new(lib_fn_names: Vec<Vec<String>>, enum_variants: NameMap) -> (r: Self)
        ensures
            r.vars_spec() == 0,
            r.lib_fns_spec() == lib_fn_entries(lib_fn_names.deep_view()),
            r.ev_spec() == enum_variants@,
    {
        let ghost names = lib_fn_names.deep_view();
        let mut lib_fns: Vec<(String, usize, usize)> = Vec::new();
        let mut libid: usize = 0;
        assert(names.take(0) =~= Seq::<Seq<Seq<char>>>::empty());
        while libid < lib_fn_names.len()
            invariant
                libid <= lib_fn_names@.len(),
                names == lib_fn_names.deep_view(),
                names.len() == lib_fn_names@.len(),
                lib_fns@.map_values(|e: (String, usize, usize)| (e.0@, e.1, e.2)) == lib_fn_entries(names.take(libid as int)),
            decreases lib_fn_names@.len() - libid,
        {
            let fns = &lib_fn_names[libid];
            let ghost before = lib_fns@.map_values(|e: (String, usize, usize)| (e.0@, e.1, e.2));
            let ghost lib = names[libid as int];
            assert(lib == fns.deep_view());
            let mut fnid: usize = 0;
            while fnid < fns.len()
                invariant
                    fnid <= fns@.len(),
                    lib == fns.deep_view(),
                    lib.len() == fns@.len(),
                    lib_fns@.map_values(|e: (String, usize, usize)| (e.0@, e.1, e.2)) == before + Seq::new(
                        fnid as nat,
                        |k: int| (lib[k], libid, k as usize),
                    ),
                decreases fns@.len() - fnid,
            {
                let ghost prev = lib_fns@;
                assert(lib[fnid as int] == fns@[fnid as int]@);
                let name = fns[fnid].clone();
                lib_fns.push((name, libid, fnid));
                assert(lib_fns@ == prev.push((name, libid, fnid)));
                assert(lib_fns@.map_values(|e: (String, usize, usize)| (e.0@, e.1, e.2)) =~= prev.map_values(
                    |e: (String, usize, usize)| (e.0@, e.1, e.2),
                ).push((lib[fnid as int], libid, fnid)));
                fnid += 1;
                assert(lib_fns@.map_values(|e: (String, usize, usize)| (e.0@, e.1, e.2)) =~= before + Seq::new(
                    fnid as nat,
                    |k: int| (lib[k], libid, k as usize),
                ));
            }
            assert(names.take(libid + 1).drop_last() =~= names.take(libid as int));
            assert(names.take(libid + 1).last() == lib);
            libid += 1;
        }
        assert(names.take(libid as int) =~= names);
        GInfo { vars: 0, lib_fns, enum_variants }
    }

    /// The library and position of the function `name`, when a library
    /// registers it.
    pub fn lib_fn(&self, name: &String) -> (r: Option<(usize, usize)>)
        ensures
            r == lib_fn_lookup(self.lib_fns_spec(), name@),
    {
        let ghost e = self.lib_fns_spec();
        let mut i: usize = self.lib_fns.len();
        assert(e.take(i as int) =~= e);
        while i > 0
            invariant
                i <= self.lib_fns@.len(),
                e == self.lib_fns_spec(),
                e.len() == self.lib_fns@.len(),
                lib_fn_lookup(e.take(i as int), name@) == lib_fn_lookup(e, name@),
            decreases i,
        {
            let ghost t = e.take(i as int);
            assert(t.last() == e[i - 1]);
            assert(t.drop_last() =~= e.take(i - 1));
            let entry = &self.lib_fns[i - 1];
            if entry.0 == *name {
                return Some((entry.1, entry.2));
            }
            i -= 1;
        }
        None
    }
}

impl Default for GInfo {
    /// No variables yet, and the enum variants every script knows.
    fn default() -> (r: Self)
        ensures
            r.vars_spec() == 0,
            r.lib_fns_spec().len() == 0,
            r.ev_spec() == seq![("Err"@, 0usize)],
    {
        let r = GInfo { vars: 0, lib_fns: Vec::new(), enum_variants: Self::default_enum_variants() };
        assert(r.lib_fns_spec() =~= Seq::<(Seq<char>, usize, usize)>::empty());
        r
    }
}

/// A single type with its named enum variants numbered, where this step
/// looks: inside tuples and inside named variants (a variant's name before
/// its inner type); every other type stays as it is.
pub open spec fn st_single_spec(t: SingleTypeModel, m: NameEntries) -> (SingleTypeModel, NameEntries)
    decreases t,
{
    match t {
        SingleTypeModel::Tuple(v) => {
            let (v2, m2) = st_types_spec(v, m);
            (SingleTypeModel::Tuple(v2), m2)
        },
        SingleTypeModel::EnumVariantS(e, x) => {
            let (id, m1) = id_for_spec(m, e);
            let (x2, m2) = st_singles_spec(x.types, m1);
            (SingleTypeModel::EnumVariant(id, TypeModel { types: x2 }), m2)
        },
        _ => (t, m),
    }
}

/// [`st_single_spec`] over the alternatives of a type, left to right.
pub open spec fn st_singles_spec(s: Seq<SingleTypeModel>, m: NameEntries) -> (Seq<SingleTypeModel>, NameEntries)
    decreases s,
{
    if s.len() == 0 {
        (Seq::empty(), m)
    } else {
        let (a, m1) = st_singles_spec(s.drop_last(), m);
        let (b, m2) = st_single_spec(s.last(), m1);
        (a.push(b), m2)
    }
}

/// [`st_single_spec`] over the values of a tuple type, left to right.
pub open spec fn st_types_spec(s: Seq<TypeModel>, m: NameEntries) -> (Seq<TypeModel>, NameEntries)
    decreases s,
{
    if s.len() == 0 {
        (Seq::empty(), m)
    } else {
        let (a, m1) = st_types_spec(s.drop_last(), m);
        let (b, m2) = st_singles_spec(s.last().types, m1);
        (a.push(TypeModel { types: b }), m2)
    }
}

fn st_single(t: VSingleType, ev: &mut NameMap) -> (r: VSingleType)
    ensures
        (r.model(), final(ev)@) == st_single_spec(t.model(), old(ev)@),
    decreases t,
{
    let ghost t0 = t;
    match t {
        VSingleType::Tuple(v) => {
            proof { assert(decreases_to!(t0 => v)); }
            VSingleType::Tuple(st_types(v, ev))
        },
        VSingleType::EnumVariantS(e, x) => {
            proof { assert(decreases_to!(t0 => x)); }
            let id = ev.id_for(&e);
            VSingleType::EnumVariant(id, st_type(x, ev))
        },
        other => other,
    }
}

fn st_type(t: VType, ev: &mut NameMap) -> (r: VType)
    ensures
        (r.model().types, final(ev)@) == st_singles_spec(t.model().types, old(ev)@),
    decreases t,
{
    let ghost t0 = t;
    proof { assert(decreases_to!(t0 => t0.types)); }
    let types = st_singles(t.types, ev);
    VType { types }
}

#[verifier::loop_isolation(false)]
fn st_singles(v: Vec<VSingleType>, ev: &mut NameMap) -> (r: Vec<VSingleType>)
    ensures
        (singles_model(r@), final(ev)@) == st_singles_spec(singles_model(v@), old(ev)@),
    decreases v,
{
    let ghost v0 = v;
    let ghost s = singles_model(v@);
    let mut v = v;
    let mut out: Vec<VSingleType> = Vec::new();
    let mut i: usize = 0;
    assert(s.take(0) =~= Seq::<SingleTypeModel>::empty());
    assert(singles_model(out@) =~= Seq::<SingleTypeModel>::empty());
    while i < v.len()
        invariant
            i <= v@.len(),
            v@.len() == v0@.len(),
            s == singles_model(v0@),
            s.len() == v0@.len(),
            forall|j: int| i <= j < v@.len() ==> v@[j] == v0@[j],
            (singles_model(out@), ev@) == st_singles_spec(s.take(i as int), old(ev)@),
        decreases v@.len() - i,
    {
        let mut t = VSingleType::Bool;
        v.set_and_swap(i, &mut t);
        proof {
            assert(t == v0@[i as int]);
            assert(decreases_to!(v0 => v0@));
            assert(decreases_to!(v0@ => v0@[i as int]));
            assert(s.take(i + 1).drop_last() =~= s.take(i as int));
        }
        let ghost pre = out@;
        let r = st_single(t, ev);
        out.push(r);
        assert(singles_model(out@) =~= singles_model(pre).push(r.model()));
        i += 1;
    }
    assert(s.take(i as int) =~= s);
    out
}

#[verifier::loop_isolation(false)]
fn st_types(v: Vec<VType>, ev: &mut NameMap) -> (r: Vec<VType>)
    ensures
        (types_model(r@), final(ev)@) == st_types_spec(types_model(v@), old(ev)@),
    decreases v,
{
    let ghost v0 = v;
    let ghost s = types_model(v@);
    let mut v = v;
    let mut out: Vec<VType> = Vec::new();
    let mut i: usize = 0;
    assert(s.take(0) =~= Seq::<TypeModel>::empty());
    assert(types_model(out@) =~= Seq::<TypeModel>::empty());
    while i < v.len()
        invariant
            i <= v@.len(),
            v@.len() == v0@.len(),
            s == types_model(v0@),
            s.len() == v0@.len(),
            forall|j: int| i <= j < v@.len() ==> v@[j] == v0@[j],
            (types_model(out@), ev@) == st_types_spec(s.take(i as int), old(ev)@),
        decreases v@.len() - i,
    {
        let mut t = VType { types: Vec::new() };
        v.set_and_swap(i, &mut t);
        proof {
            assert(t == v0@[i as int]);
            assert(decreases_to!(v0 => v0@));
            assert(decreases_to!(v0@ => v0@[i as int]));
            assert(s.take(i + 1).drop_last() =~= s.take(i as int));
        }
        let ghost pre = out@;
        let r = st_type(t, ev);
        out.push(r);
        assert(types_model(out@) =~= types_model(pre).push(r.model()));
        i += 1;
    }
    assert(s.take(i as int) =~= s);
    out
}

/// Numbers the named enum variants of `t` where [`st_single_spec`] says,
/// taking ids from `ginfo` and adding the names it does not know.
pub fn stype(t: &mut VSingleType, ginfo: &mut GInfo)
    ensures
        (final(t).model(), final(ginfo).ev_spec()) == st_single_spec(old(t).model(), old(ginfo).ev_spec()),
        final(ginfo).vars_spec() == old(ginfo).vars_spec(),
{
    let mut x = VSingleType::Bool;
    std::mem::swap(t, &mut x);
    *t = st_single(x, &mut ginfo.enum_variants);
}

/// [`stype`] on every alternative of `t`, left to right.
pub fn stypes(t: &mut VType, ginfo: &mut GInfo)
    ensures
        (final(t).model().types, final(ginfo).ev_spec()) == st_singles_spec(old(t).model().types, old(ginfo).ev_spec()),
        final(ginfo).vars_spec() == old(ginfo).vars_spec(),
{
    let mut x = VType { types: Vec::new() };
    std::mem::swap(t, &mut x);
    *t = st_type(x, &mut ginfo.enum_variants);
}

} // verus!
