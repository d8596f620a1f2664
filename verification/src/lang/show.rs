//! Writing types the way scripts write them, such as `[int string]` or
//! `fn((int string))`.
use vstd::prelude::*;
use crate::lang::type_model::{SingleTypeModel, TypeModel, fns_model, singles_model, types_model};
use crate::lang::val_type::{VSingleType, VType};
use crate::lang::global_info::GlobalScriptInfo;
use crate::text::{append, decimal, push_decimal, string_push};

verus! {

broadcast use crate::lang::type_model::group_model_lemmas;

/// The first name that `m` gives the id `id`.
pub open spec fn first_name(m: Seq<(Seq<char>, usize)>, id: usize) -> Option<Seq<char>>
    decreases m.len(),
{
    if m.len() == 0 {
        None
    } else if m[0].1 == id {
        Some(m[0].0)
    } else {
        first_name(m.drop_first(), id)
    }
}

/// The names a type is written with: enum variant names and custom type
/// names, when known.
pub struct Names {
    pub enum_variants: Seq<(Seq<char>, usize)>,
    pub custom_types: Seq<(Seq<char>, usize)>,
}

/// The names `info` knows.
pub open spec fn names_of(info: Option<&GlobalScriptInfo>) -> Option<Names> {
    match info {
        Some(i) => Some(Names { enum_variants: i.enum_variants@, custom_types: i.custom_type_names@ }),
        None => None,
    }
}

/// A single type as a script writes it. Enum variants are written with
/// their name where `names` knows one and with their number otherwise;
/// custom types with their name where `names` are given.
pub open spec fn show_single(t: SingleTypeModel, names: Option<Names>) -> Seq<char>
    decreases t,
{
    match t {
        SingleTypeModel::Bool => "bool"@,
        SingleTypeModel::Int => "int"@,
        SingleTypeModel::Float => "float"@,
        SingleTypeModel::String => "string"@,
        SingleTypeModel::Tuple(v) => seq!['['] + show_tuple(v, names) + seq![']'],
        SingleTypeModel::List(v) => seq!['['] + show_type(v, names) + " ...]"@,
        SingleTypeModel::Function(f) => "fn("@ + show_fns(f, names) + seq![')'],
        SingleTypeModel::Thread(v) => "thread("@ + show_type(v, names) + seq![')'],
        SingleTypeModel::Reference(r) => seq!['&'] + show_single(*r, names),
        SingleTypeModel::EnumVariant(e, v) => {
            let n = match names {
                Some(ns) => match first_name(ns.enum_variants, e) {
                    Some(n) => n,
                    None => decimal(e as nat),
                },
                None => decimal(e as nat),
            };
            n + seq!['('] + show_type(v, names) + seq![')']
        },
        SingleTypeModel::EnumVariantS(n, v) => n + seq!['('] + show_type(v, names) + seq![')'],
        SingleTypeModel::CustomType(c) => match names {
            Some(ns) => match first_name(ns.custom_types, c) {
                Some(n) => n,
                None => Seq::empty(),
            },
            None => "[custom type #"@ + decimal(c as nat) + seq![']'],
        },
        SingleTypeModel::CustomTypeS(n) => n,
    }
}

/// The alternatives of a type, separated by `/`.
pub open spec fn show_type(t: TypeModel, names: Option<Names>) -> Seq<char>
    decreases t,
{
    show_singles(t.types, names)
}

pub open spec fn show_singles(s: Seq<SingleTypeModel>, names: Option<Names>) -> Seq<char>
    decreases s,
{
    if s.len() == 0 {
        Seq::empty()
    } else if s.len() == 1 {
        show_single(s[0], names)
    } else {
        show_singles(s.drop_last(), names) + seq!['/'] + show_single(s.last(), names)
    }
}

/// The values of a tuple, separated by spaces.
pub open spec fn show_tuple(v: Seq<TypeModel>, names: Option<Names>) -> Seq<char>
    decreases v,
{
    if v.len() == 0 {
        Seq::empty()
    } else if v.len() == 1 {
        show_type(v[0], names)
    } else {
        show_tuple(v.drop_last(), names) + seq![' '] + show_type(v.last(), names)
    }
}

/// Each argument followed by a space.
pub open spec fn show_args(a: Seq<SingleTypeModel>, names: Option<Names>) -> Seq<char>
    decreases a,
{
    if a.len() == 0 {
        Seq::empty()
    } else {
        show_args(a.drop_last(), names) + show_single(a.last(), names) + seq![' ']
    }
}

/// Each variant of a function type in parentheses: its arguments, then its output.
pub open spec fn show_fns(f: Seq<(Seq<SingleTypeModel>, TypeModel)>, names: Option<Names>) -> Seq<char>
    decreases f,
{
    if f.len() == 0 {
        Seq::empty()
    } else {
        show_fns(f.drop_last(), names) + seq!['('] + show_args(f.last().0, names) + show_type(f.last().1, names) + seq![')']
    }
}

/// Every custom type in `t` has a name in `names`, where names are given.
pub open spec fn named_single(t: SingleTypeModel, names: Option<Names>) -> bool
    decreases t,
{
    match t {
        SingleTypeModel::Tuple(v) => named_types(v, names),
        SingleTypeModel::List(v) => named_singles(v.types, names),
        SingleTypeModel::Function(f) => named_fns(f, names),
        SingleTypeModel::Thread(v) => named_singles(v.types, names),
        SingleTypeModel::Reference(r) => named_single(*r, names),
        SingleTypeModel::EnumVariant(_, v) => named_singles(v.types, names),
        SingleTypeModel::EnumVariantS(_, v) => named_singles(v.types, names),
        SingleTypeModel::CustomType(c) => names matches Some(ns) ==> first_name(ns.custom_types, c) is Some,
        _ => true,
    }
}

pub open spec fn named_singles(s: Seq<SingleTypeModel>, names: Option<Names>) -> bool
    decreases s,
{
    s.len() == 0 || (named_singles(s.drop_last(), names) && named_single(s.last(), names))
}

pub open spec fn named_types(s: Seq<TypeModel>, names: Option<Names>) -> bool
    decreases s,
{
    s.len() == 0 || (named_types(s.drop_last(), names) && named_singles(s.last().types, names))
}

pub open spec fn named_fns(f: Seq<(Seq<SingleTypeModel>, TypeModel)>, names: Option<Names>) -> bool
    decreases f,
{
    f.len() == 0 || (named_fns(f.drop_last(), names) && named_singles(f.last().0, names) && named_singles(f.last().1.types, names))
}

proof fn lemma_named_singles(s: Seq<SingleTypeModel>, names: Option<Names>, i: int)
    requires
        named_singles(s, names),
        0 <= i < s.len(),
    ensures
        named_single(s[i], names),
    decreases s.len(),
{
    if i < s.len() - 1 {
        lemma_named_singles(s.drop_last(), names, i);
    }
}

proof fn lemma_named_types(s: Seq<TypeModel>, names: Option<Names>, i: int)
    requires
        named_types(s, names),
        0 <= i < s.len(),
    ensures
        named_singles(s[i].types, names),
    decreases s.len(),
{
    if i < s.len() - 1 {
        lemma_named_types(s.drop_last(), names, i);
    }
}

proof fn lemma_named_fns(f: Seq<(Seq<SingleTypeModel>, TypeModel)>, names: Option<Names>, i: int)
    requires
        named_fns(f, names),
        0 <= i < f.len(),
    ensures
        named_singles(f[i].0, names),
        named_singles(f[i].1.types, names),
    decreases f.len(),
{
    if i < f.len() - 1 {
        lemma_named_fns(f.drop_last(), names, i);
    }
}

/// The first name that `m` gives the id `id`.
pub(crate) fn find_name(m: &Vec<(String, usize)>, id: usize) -> (r: Option<&String>)
    ensures
        r matches Some(n) ==> first_name(m@.map_values(|e: (String, usize)| (e.0@, e.1)), id) == Some(n@),
        r is None ==> first_name(m@.map_values(|e: (String, usize)| (e.0@, e.1)), id) is None,
{
    let ghost v = m@.map_values(|e: (String, usize)| (e.0@, e.1));
    let mut i: usize = 0;
    assert(v.skip(0) =~= v);
    while i < m.len()
        invariant
            i <= m@.len(),
            v == m@.map_values(|e: (String, usize)| (e.0@, e.1)),
            first_name(v.skip(i as int), id) == first_name(v, id),
        decreases m@.len() - i,
    {
        assert(v.skip(i as int)[0] == v[i as int]);
        assert(v.skip(i as int).drop_first() =~= v.skip(i + 1));
        if m[i].1 == id {
            return Some(&m[i].0);
        }
        i += 1;
    }
    assert(v.skip(i as int).len() == 0);
    None
}

fn write_singles(s: &Vec<VSingleType>, info: Option<&GlobalScriptInfo>, out: &mut String)
    requires
        named_singles(singles_model(s@), names_of(info)),
    ensures
        final(out)@ == old(out)@ + show_singles(singles_model(s@), names_of(info)),
    decreases s,
{
    let ghost m = singles_model(s@);
    let ghost ns = names_of(info);
    let mut i: usize = 0;
    while i < s.len()
        invariant
            i <= s@.len(),
            m == singles_model(s@),
            m.len() == s@.len(),
            ns == names_of(info),
            named_singles(m, ns),
            out@ == old(out)@ + show_singles(m.take(i as int), ns),
        decreases s@.len() - i,
    {
        proof {
            assert(decreases_to!(s@ => s@[i as int]));
            lemma_named_singles(m, ns, i as int);
            assert(m.take(i + 1).drop_last() =~= m.take(i as int));
            assert(m.take(i + 1).last() == m[i as int]);
            if i == 0 {
                assert(m.take(1) =~= seq![m[0]]);
            }
        }
        if i > 0 {
            string_push(out, '/');
        }
        write_single(&s[i], info, out);
        i += 1;
        assert(out@ =~= old(out)@ + show_singles(m.take(i as int), ns));
    }
    assert(m.take(i as int) =~= m);
}

pub(crate) fn write_type(t: &VType, info: Option<&GlobalScriptInfo>, out: &mut String)
    requires
        named_singles(t.model().types, names_of(info)),
    ensures
        final(out)@ == old(out)@ + show_type(t.model(), names_of(info)),
    decreases t,
{
    write_singles(&t.types, info, out);
}

fn write_tuple(v: &Vec<VType>, info: Option<&GlobalScriptInfo>, out: &mut String)
    requires
        named_types(types_model(v@), names_of(info)),
    ensures
        final(out)@ == old(out)@ + show_tuple(types_model(v@), names_of(info)),
    decreases v,
{
    let ghost m = types_model(v@);
    let ghost ns = names_of(info);
    let mut i: usize = 0;
    while i < v.len()
        invariant
            i <= v@.len(),
            m == types_model(v@),
            m.len() == v@.len(),
            ns == names_of(info),
            named_types(m, ns),
            out@ == old(out)@ + show_tuple(m.take(i as int), ns),
        decreases v@.len() - i,
    {
        proof {
            assert(decreases_to!(v@ => v@[i as int]));
            lemma_named_types(m, ns, i as int);
            assert(m.take(i + 1).drop_last() =~= m.take(i as int));
            assert(m.take(i + 1).last() == m[i as int]);
            if i == 0 {
                assert(m.take(1) =~= seq![m[0]]);
            }
        }
        if i > 0 {
            string_push(out, ' ');
        }
        write_type(&v[i], info, out);
        i += 1;
        assert(out@ =~= old(out)@ + show_tuple(m.take(i as int), ns));
    }
    assert(m.take(i as int) =~= m);
}

fn write_args(a: &Vec<VSingleType>, info: Option<&GlobalScriptInfo>, out: &mut String)
    requires
        named_singles(singles_model(a@), names_of(info)),
    ensures
        final(out)@ == old(out)@ + show_args(singles_model(a@), names_of(info)),
    decreases a,
{
    let ghost m = singles_model(a@);
    let ghost ns = names_of(info);
    let mut i: usize = 0;
    while i < a.len()
        invariant
            i <= a@.len(),
            m == singles_model(a@),
            m.len() == a@.len(),
            ns == names_of(info),
            named_singles(m, ns),
            out@ == old(out)@ + show_args(m.take(i as int), ns),
        decreases a@.len() - i,
    {
        proof {
            assert(decreases_to!(a@ => a@[i as int]));
            lemma_named_singles(m, ns, i as int);
            assert(m.take(i + 1).drop_last() =~= m.take(i as int));
            assert(m.take(i + 1).last() == m[i as int]);
        }
        write_single(&a[i], info, out);
        string_push(out, ' ');
        i += 1;
        assert(out@ =~= old(out)@ + show_args(m.take(i as int), ns));
    }
    assert(m.take(i as int) =~= m);
}

fn write_fns(f: &Vec<(Vec<VSingleType>, VType)>, info: Option<&GlobalScriptInfo>, out: &mut String)
    requires
        named_fns(fns_model(f@), names_of(info)),
    ensures
        final(out)@ == old(out)@ + show_fns(fns_model(f@), names_of(info)),
    decreases f,
{
    let ghost m = fns_model(f@);
    let ghost ns = names_of(info);
    let mut i: usize = 0;
    while i < f.len()
        invariant
            i <= f@.len(),
            m == fns_model(f@),
            m.len() == f@.len(),
            ns == names_of(info),
            named_fns(m, ns),
            out@ == old(out)@ + show_fns(m.take(i as int), ns),
        decreases f@.len() - i,
    {
        proof {
            assert(decreases_to!(f@ => f@[i as int]));
            assert(decreases_to!(f@[i as int] => f@[i as int].0));
            assert(decreases_to!(f@[i as int] => f@[i as int].1));
            lemma_named_fns(m, ns, i as int);
            assert(m.take(i + 1).drop_last() =~= m.take(i as int));
            assert(m.take(i + 1).last() == m[i as int]);
            assert(m[i as int] == (singles_model(f@[i as int].0@), f@[i as int].1.model()));
        }
        string_push(out, '(');
        write_args(&f[i].0, info, out);
        write_type(&f[i].1, info, out);
        string_push(out, ')');
        i += 1;
        assert(out@ =~= old(out)@ + show_fns(m.take(i as int), ns));
    }
    assert(m.take(i as int) =~= m);
}

pub(crate) fn write_single(t: &VSingleType, info: Option<&GlobalScriptInfo>, out: &mut String)
    requires
        named_single(t.model(), names_of(info)),
    ensures
        final(out)@ == old(out)@ + show_single(t.model(), names_of(info)),
    decreases t,
{
    match t {
        VSingleType::Bool => append(out, "bool"),
        VSingleType::Int => append(out, "int"),
        VSingleType::Float => append(out, "float"),
        VSingleType::String => append(out, "string"),
        VSingleType::Tuple(v) => {
            string_push(out, '[');
            write_tuple(v, info, out);
            string_push(out, ']');
        },
        VSingleType::List(v) => {
            string_push(out, '[');
            write_type(v, info, out);
            append(out, " ...]");
        },
        VSingleType::Function(f) => {
            append(out, "fn(");
            write_fns(f, info, out);
            string_push(out, ')');
        },
        VSingleType::Thread(v) => {
            append(out, "thread(");
            write_type(v, info, out);
            string_push(out, ')');
        },
        VSingleType::Reference(r) => {
            string_push(out, '&');
            write_single(r, info, out);
        },
        VSingleType::EnumVariant(e, v) => {
            let name = match info {
                Some(i) => find_name(i.enum_variants.entries(), *e),
                None => None,
            };
            match name {
                Some(n) => append(out, n.as_str()),
                None => push_decimal(out, *e),
            }
            string_push(out, '(');
            write_type(v, info, out);
            string_push(out, ')');
        },
        VSingleType::EnumVariantS(n, v) => {
            append(out, n.as_str());
            string_push(out, '(');
            write_type(v, info, out);
            string_push(out, ')');
        },
        VSingleType::CustomType(c) => {
            match info {
                Some(i) => {
                    match find_name(i.custom_type_names.entries(), *c) {
                        Some(n) => append(out, n.as_str()),
                        None => {},
                    }
                },
                None => {
                    append(out, "[custom type #");
                    push_decimal(out, *c);
                    string_push(out, ']');
                },
            }
        },
        VSingleType::CustomTypeS(n) => append(out, n.as_str()),
    }
    assert(final(out)@ =~= old(out)@ + show_single(t.model(), names_of(info)));
}

impl VSingleType {
    /// The type as a script writes it, as [`show_single`] says; with `info`,
    /// enum variants and custom types are written with their names.
    pub fn fmtgs(&self, info: Option<&GlobalScriptInfo>) -> (r: String)
        requires
            named_single(self.model(), names_of(info)),
        ensures
            r@ == show_single(self.model(), names_of(info)),
    {
        let mut out = String::new();
        write_single(self, info, &mut out);
        assert(out@ =~= show_single(self.model(), names_of(info)));
        out
    }
}

impl VType {
    /// The alternatives as a script writes them, separated by `/`.
    pub fn fmtgs(&self, info: Option<&GlobalScriptInfo>) -> (r: String)
        requires
            named_singles(self.model().types, names_of(info)),
        ensures
            r@ == show_type(self.model(), names_of(info)),
    {
        let mut out = String::new();
        write_type(self, info, &mut out);
        assert(out@ =~= show_type(self.model(), names_of(info)));
        out
    }
}

} // verus!
