//! Parsed statements, as the parser gives them, and writing them back as
//! source text, indented by depth.
use vstd::prelude::*;
use crate::lang::fmtgs::{FormatInfo, indent};
use crate::lang::global_info::GlobalScriptInfo;
use crate::lang::show::{Names, find_name, first_name, named_single, named_singles, names_of, show_single, show_type, write_single, write_type};
use crate::lang::type_model::{SingleTypeModel, TypeModel};
use crate::lang::val_data::{DataModel, VDataEnum, datas_model, group_data_lemmas};
use crate::lang::val_type::{VSingleType, VType};
use crate::text::{append, decimal, push_decimal, string_push};

verus! {

broadcast use {crate::lang::type_model::group_model_lemmas, group_data_lemmas};

/// An integer in decimal, with a `-` when it is negative.
pub open spec fn int_text(v: int) -> Seq<char> {
    if v < 0 {
        seq!['-'] + decimal((-v) as nat)
    } else {
        decimal(v as nat)
    }
}

/// The name `names` gives an enum variant id, or the id in decimal.
pub open spec fn variant_text(e: usize, names: Option<Names>) -> Seq<char> {
    match names {
        Some(ns) => match first_name(ns.enum_variants, e) {
            Some(n) => n,
            None => decimal(e as nat),
        },
        None => decimal(e as nat),
    }
}

/// A value as a script writes it: `true`, `-3`, `"text"`, `[a b]` for a
/// tuple, `[a b ...]` for a list, a function by its type, `&` before what a
/// reference points to, and `name: value` for an enum variant.
pub open spec fn show_value(d: DataModel, names: Option<Names>) -> Seq<char>
    decreases d,
{
    match d {
        DataModel::Bool(b) => if b { "true"@ } else { "false"@ },
        DataModel::Int(v) => int_text(v as int),
        DataModel::Float(_) => Seq::empty(),
        DataModel::String(s) => seq!['"'] + s + seq!['"'],
        DataModel::Tuple(v) => seq!['['] + show_values_sp(v, names) + seq![']'],
        DataModel::List(_, v) => seq!['['] + show_values_list(v, names) + "...]"@,
        DataModel::Function(f) => show_single(SingleTypeModel::Function(f), names),
        DataModel::Thread(_) => "[TODO] THREAD"@,
        DataModel::Reference(r) => seq!['&'] + show_value(*r, names),
        DataModel::EnumVariant(e, v) => variant_text(e, names) + ": "@ + show_value(*v, names),
    }
}

/// Values separated by single spaces.
pub open spec fn show_values_sp(v: Seq<DataModel>, names: Option<Names>) -> Seq<char>
    decreases v,
{
    if v.len() == 0 {
        Seq::empty()
    } else if v.len() == 1 {
        show_value(v[0], names)
    } else {
        show_values_sp(v.drop_last(), names) + seq![' '] + show_value(v.last(), names)
    }
}

/// Values, each followed by a space.
pub open spec fn show_values_list(v: Seq<DataModel>, names: Option<Names>) -> Seq<char>
    decreases v,
{
    if v.len() == 0 {
        Seq::empty()
    } else {
        show_values_list(v.drop_last(), names) + show_value(v.last(), names) + seq![' ']
    }
}

/// A value that can be written: no float in it (floats are written outside
/// this library), and every type in it has its names known.
pub open spec fn writable_value(d: DataModel, names: Option<Names>) -> bool
    decreases d,
{
    match d {
        DataModel::Float(_) => false,
        DataModel::Tuple(v) => writable_values(v, names),
        DataModel::List(_, v) => writable_values(v, names),
        DataModel::Function(f) => named_single(SingleTypeModel::Function(f), names),
        DataModel::Reference(r) => writable_value(*r, names),
        DataModel::EnumVariant(_, v) => writable_value(*v, names),
        _ => true,
    }
}

/// [`writable_value`] for each value.
pub open spec fn writable_values(v: Seq<DataModel>, names: Option<Names>) -> bool
    decreases v,
{
    v.len() == 0 || (writable_values(v.drop_last(), names) && writable_value(v.last(), names))
}

proof fn lemma_writable_values(v: Seq<DataModel>, names: Option<Names>, i: int)
    requires
        writable_values(v, names),
        0 <= i < v.len(),
    ensures
        writable_value(v[i], names),
    decreases v.len(),
{
    if i < v.len() - 1 {
        lemma_writable_values(v.drop_last(), names, i);
    }
}

/// Appends an integer in decimal.
fn push_int(out: &mut String, v: isize)
    ensures
        final(out)@ == old(out)@ + int_text(v as int),
{
    if v < 0 {
        string_push(out, '-');
        let u: usize = ((-(v + 1)) as usize) + 1;
        assert(u == -(v as int));
        push_decimal(out, u);
        assert(final(out)@ =~= old(out)@ + int_text(v as int));
    } else {
        push_decimal(out, v as usize);
    }
}

fn write_values(v: &Vec<VDataEnum>, info: Option<&GlobalScriptInfo>, out: &mut String, list: bool)
    requires
        writable_values(datas_model(v@), names_of(info)),
    ensures
        list ==> final(out)@ == old(out)@ + show_values_list(datas_model(v@), names_of(info)),
        !list ==> final(out)@ == old(out)@ + show_values_sp(datas_model(v@), names_of(info)),
    decreases v,
{
    let ghost m = datas_model(v@);
    let ghost n = names_of(info);
    let mut i: usize = 0;
    while i < v.len()
        invariant
            i <= v@.len(),
            m == datas_model(v@),
            m.len() == v@.len(),
            n == names_of(info),
            writable_values(m, n),
            list ==> out@ == old(out)@ + show_values_list(m.take(i as int), n),
            !list ==> out@ == old(out)@ + show_values_sp(m.take(i as int), n),
        decreases v@.len() - i,
    {
        proof {
            assert(decreases_to!(v@ => v@[i as int]));
            assert(m.take(i + 1).drop_last() =~= m.take(i as int));
            assert(m[i as int] == v@[i as int].model());
            lemma_writable_values(m, n, i as int);
        }
        if !list && i > 0 {
            string_push(out, ' ');
        }
        write_value(&v[i], info, out);
        if list {
            string_push(out, ' ');
        }
        proof {
            if !list && i == 0 {
                assert(m.take(1) =~= seq![m[0]]);
            }
        }
        i += 1;
    }
    assert(m.take(i as int) =~= m);
}

fn write_value(d: &VDataEnum, info: Option<&GlobalScriptInfo>, out: &mut String)
    requires
        writable_value(d.model(), names_of(info)),
    ensures
        final(out)@ == old(out)@ + show_value(d.model(), names_of(info)),
    decreases d,
{
    match d {
        VDataEnum::Bool(b) => {
            if *b {
                append(out, "true");
            } else {
                append(out, "false");
            }
        },
        VDataEnum::Int(v) => push_int(out, *v),
        VDataEnum::Float(_) => {},
        VDataEnum::String(s) => {
            string_push(out, '"');
            append(out, s.as_str());
            string_push(out, '"');
        },
        VDataEnum::Tuple(v) => {
            string_push(out, '[');
            write_values(v, info, out, false);
            string_push(out, ']');
        },
        VDataEnum::List(_, v) => {
            string_push(out, '[');
            write_values(v, info, out, true);
            append(out, "...]");
        },
        VDataEnum::Function(f) => {
            let t = VSingleType::Function(crate::lang::val_type::clone_fns(f));
            write_single(&t, info, out);
        },
        VDataEnum::Thread(_) => append(out, "[TODO] THREAD"),
        VDataEnum::Reference(r) => {
            string_push(out, '&');
            write_value(r, info, out);
        },
        VDataEnum::EnumVariant(e, v) => {
            let found = match info {
                Some(i) => find_name(i.enum_variants.entries(), *e),
                None => None,
            };
            match found {
                Some(name) => append(out, name.as_str()),
                None => push_decimal(out, *e),
            }
            append(out, ": ");
            write_value(v, info, out);
        },
    }
    proof {
        reveal_strlit("true");
        reveal_strlit("false");
        reveal_strlit("...]");
        reveal_strlit("[TODO] THREAD");
        reveal_strlit(": ");
    }
    assert(final(out)@ =~= old(out)@ + show_value(d.model(), names_of(info)));
}

impl VDataEnum {
    /// The value as a script writes it, as [`show_value`] says; with `info`,
    /// enum variants are written with their names.
    pub fn fmtgs(&self, info: Option<&GlobalScriptInfo>) -> (r: String)
        requires
            writable_value(self.model(), names_of(info)),
        ensures
            r@ == show_value(self.model(), names_of(info)),
    {
        let mut out = String::new();
        write_value(self, info, &mut out);
        assert(out@ =~= show_value(self.model(), names_of(info)));
        out
    }
}

/// What a parsed statement does.
pub enum SStatementEnum {
    Value(VDataEnum),
    Tuple(Vec<SStatement>),
    List(Vec<SStatement>),
    /// A variable by name, or a reference to it.
    Variable(String, bool),
    FunctionCall(String, Vec<SStatement>),
    FunctionDefinition(Option<String>, SFunction),
    Block(SBlock),
    If(SStatement, SStatement, Option<SStatement>),
    Loop(SStatement),
    For(String, SStatement, SStatement),
    /// The variable, the cases by type, and whether every type must be covered.
    Switch(String, Vec<(VType, SStatement)>, bool),
    Match(String, Vec<(SStatement, SStatement)>),
    IndexFixed(SStatement, usize),
    EnumVariant(String, SStatement),
    TypeDefinition(String, VType),
}

/// A parsed statement: what it does, where its value goes (a statement and
/// the number of dereferences), and the type its value is forced to have.
pub struct SStatement {
    pub output_to: Option<(Box<SStatement>, usize)>,
    pub statement: Box<SStatementEnum>,
    pub force_output_type: Option<VType>,
}

/// Statements run one after the other.
pub struct SBlock {
    pub statements: Vec<SStatement>,
}

/// A function: its arguments with their types, and its body.
pub struct SFunction {
    pub inputs: Vec<(String, VType)>,
    pub block: SBlock,
}

/// The mathematical value of an [`SStatementEnum`].
pub enum SKindModel {
    Value(DataModel),
    Tuple(Seq<SStmtModel>),
    List(Seq<SStmtModel>),
    Variable(Seq<char>, bool),
    FunctionCall(Seq<char>, Seq<SStmtModel>),
    FunctionDefinition(Option<Seq<char>>, Seq<(Seq<char>, TypeModel)>, Seq<SStmtModel>),
    Block(Seq<SStmtModel>),
    If(Box<SStmtModel>, Box<SStmtModel>, Option<Box<SStmtModel>>),
    Loop(Box<SStmtModel>),
    For(Seq<char>, Box<SStmtModel>, Box<SStmtModel>),
    Switch(Seq<char>, Seq<(TypeModel, SStmtModel)>, bool),
    Match(Seq<char>, Seq<(SStmtModel, SStmtModel)>),
    IndexFixed(Box<SStmtModel>, usize),
    EnumVariant(Seq<char>, Box<SStmtModel>),
    TypeDefinition(Seq<char>, TypeModel),
}

/// The mathematical value of an [`SStatement`].
pub struct SStmtModel {
    pub output_to: Option<(Box<SStmtModel>, usize)>,
    pub kind: Box<SKindModel>,
    pub force: Option<TypeModel>,
}

pub open spec fn sstmts_model(s: Seq<SStatement>) -> Seq<SStmtModel>
    decreases s,
{
    if s.len() == 0 {
        Seq::empty()
    } else {
        sstmts_model(s.drop_last()).push(s.last().model())
    }
}

pub open spec fn arms_model(s: Seq<(SStatement, SStatement)>) -> Seq<(SStmtModel, SStmtModel)>
    decreases s,
{
    if s.len() == 0 {
        Seq::empty()
    } else {
        arms_model(s.drop_last()).push((s.last().0.model(), s.last().1.model()))
    }
}

pub open spec fn typed_arms_model(s: Seq<(VType, SStatement)>) -> Seq<(TypeModel, SStmtModel)>
    decreases s,
{
    if s.len() == 0 {
        Seq::empty()
    } else {
        typed_arms_model(s.drop_last()).push((s.last().0.model(), s.last().1.model()))
    }
}

pub open spec fn inputs_model(s: Seq<(String, VType)>) -> Seq<(Seq<char>, TypeModel)> {
    s.map_values(|x: (String, VType)| (x.0@, x.1.model()))
}

impl SStatement {
    pub open spec fn model(&self) -> SStmtModel
        decreases self,
    {
        SStmtModel {
            output_to: match self.output_to {
                Some((t, k)) => Some((Box::new(t.model()), k)),
                None => None,
            },
            kind: Box::new(self.statement.model()),
            force: match self.force_output_type {
                Some(t) => Some(t.model()),
                None => None,
            },
        }
    }
}

impl SStatementEnum {
    pub open spec fn model(&self) -> SKindModel
        decreases self,
    {
        match self {
            SStatementEnum::Value(v) => SKindModel::Value(v.model()),
            SStatementEnum::Tuple(v) => SKindModel::Tuple(sstmts_model(v@)),
            SStatementEnum::List(v) => SKindModel::List(sstmts_model(v@)),
            SStatementEnum::Variable(n, r) => SKindModel::Variable(n@, *r),
            SStatementEnum::FunctionCall(f, a) => SKindModel::FunctionCall(f@, sstmts_model(a@)),
            SStatementEnum::FunctionDefinition(n, f) => SKindModel::FunctionDefinition(
                match n {
                    Some(n) => Some(n@),
                    None => None,
                },
                inputs_model(f.inputs@),
                sstmts_model(f.block.statements@),
            ),
            SStatementEnum::Block(b) => SKindModel::Block(sstmts_model(b.statements@)),
            SStatementEnum::If(c, y, n) => SKindModel::If(Box::new(c.model()), Box::new(y.model()), match n {
                Some(n) => Some(Box::new(n.model())),
                None => None,
            }),
            SStatementEnum::Loop(b) => SKindModel::Loop(Box::new(b.model())),
            SStatementEnum::For(v, i, b) => SKindModel::For(v@, Box::new(i.model()), Box::new(b.model())),
            SStatementEnum::Switch(v, a, f) => SKindModel::Switch(v@, typed_arms_model(a@), *f),
            SStatementEnum::Match(v, a) => SKindModel::Match(v@, arms_model(a@)),
            SStatementEnum::IndexFixed(s, i) => SKindModel::IndexFixed(Box::new(s.model()), *i),
            SStatementEnum::EnumVariant(v, s) => SKindModel::EnumVariant(v@, Box::new(s.model())),
            SStatementEnum::TypeDefinition(n, t) => SKindModel::TypeDefinition(n@, t.model()),
        }
    }
}

/// `k` stars.
pub open spec fn stars(k: nat) -> Seq<char> {
    Seq::new(k, |i: int| '*')
}

/// A statement as source text at depth `d`: where its value goes (that
/// statement written at depth 0, after a star for each dereference, then
/// ` = `), the type it is forced to (` -> ` and the type), then what it does.
pub open spec fn show_stmt(s: SStmtModel, n: Option<Names>, d: nat) -> Seq<char>
    decreases s, 0nat,
{
    (match s.output_to {
        Some((t, k)) => stars(k as nat) + show_stmt(*t, n, 0) + " = "@,
        None => Seq::empty(),
    }) + (match s.force {
        Some(t) => " -> "@ + show_type(t, n),
        None => Seq::empty(),
    }) + show_kind(*s.kind, n, d)
}

/// A block: `{}` when empty, else each statement on a line of its own one
/// level deeper, and the closing brace at depth `d`.
pub open spec fn show_block(v: Seq<SStmtModel>, n: Option<Names>, d: nat) -> Seq<char>
    decreases v, 1nat,
{
    if v.len() == 0 {
        "{}"@
    } else {
        "{\n"@ + show_lines(v, n, d + 1) + indent(d) + seq!['}']
    }
}

/// What a statement does, as source text at depth `d`.
pub open spec fn show_kind(k: SKindModel, n: Option<Names>, d: nat) -> Seq<char>
    decreases k, 0nat,
{
    match k {
        SKindModel::Value(v) => show_value(v, n),
        SKindModel::Tuple(v) => seq!['['] + show_sp(v, n, d) + seq![']'],
        SKindModel::List(v) => seq!['['] + show_list(v, n, d) + "...]"@,
        SKindModel::Variable(name, r) => (if r { seq!['&'] } else { Seq::empty() }) + name,
        SKindModel::FunctionCall(f, a) => f + seq!['('] + show_sp(a, n, d) + seq![')'],
        SKindModel::FunctionDefinition(name, inputs, b) => (match name {
            Some(nm) => "fn "@ + nm,
            None => Seq::empty(),
        }) + seq!['('] + show_inputs(inputs, n) + ") "@ + show_block(b, n, d),
        SKindModel::Block(v) => show_block(v, n, d),
        SKindModel::If(c, y, no) => "if "@ + show_stmt(*c, n, d) + seq![' '] + show_stmt(*y, n, d) + match no {
            Some(no) => " else "@ + show_stmt(*no, n, d),
            None => Seq::empty(),
        },
        SKindModel::Loop(b) => "loop "@ + show_stmt(*b, n, d),
        SKindModel::For(v, i, b) => "for "@ + v + seq![' '] + show_stmt(*i, n, d) + seq![' '] + show_stmt(*b, n, d),
        SKindModel::Switch(v, a, force) => (if force { "switch!"@ } else { "switch"@ }) + seq![' '] + v + " {\n"@
            + show_typed_arms(a, n, d + 1) + indent(d) + seq!['}'],
        SKindModel::Match(v, a) => "match "@ + v + " {"@ + show_arms(a, n, d + 1) + indent(d) + seq!['}'],
        SKindModel::IndexFixed(s, i) => show_stmt(*s, n, d) + seq!['.'] + decimal(i as nat),
        SKindModel::EnumVariant(v, s) => v + ": "@ + show_stmt(*s, n, d),
        SKindModel::TypeDefinition(name, t) => "type "@ + name + seq![' '] + show_type(t, None),
    }
}

/// Statements separated by single spaces.
pub open spec fn show_sp(v: Seq<SStmtModel>, n: Option<Names>, d: nat) -> Seq<char>
    decreases v, 0nat,
{
    if v.len() == 0 {
        Seq::empty()
    } else if v.len() == 1 {
        show_stmt(v[0], n, d)
    } else {
        show_sp(v.drop_last(), n, d) + seq![' '] + show_stmt(v.last(), n, d)
    }
}

/// Statements, each followed by a space.
pub open spec fn show_list(v: Seq<SStmtModel>, n: Option<Names>, d: nat) -> Seq<char>
    decreases v, 0nat,
{
    if v.len() == 0 {
        Seq::empty()
    } else {
        show_list(v.drop_last(), n, d) + show_stmt(v.last(), n, d) + seq![' ']
    }
}

/// Statements, each on a line of its own at depth `d`.
pub open spec fn show_lines(v: Seq<SStmtModel>, n: Option<Names>, d: nat) -> Seq<char>
    decreases v, 0nat,
{
    if v.len() == 0 {
        Seq::empty()
    } else {
        show_lines(v.drop_last(), n, d) + indent(d) + show_stmt(v.last(), n, d) + seq!['\n']
    }
}

/// The cases of a `match`, each on a line of its own at depth `d`: the
/// condition, a space, the action.
pub open spec fn show_arms(a: Seq<(SStmtModel, SStmtModel)>, n: Option<Names>, d: nat) -> Seq<char>
    decreases a, 0nat,
{
    if a.len() == 0 {
        Seq::empty()
    } else {
        proof {
            assert(decreases_to!(a => a.last()));
        }
        show_arms(a.drop_last(), n, d) + indent(d) + show_stmt(a.last().0, n, d) + seq![' '] + show_stmt(a.last().1, n, d) + seq!['\n']
    }
}

/// The cases of a `switch`, each on a line of its own at depth `d`: the
/// type, a space, the action.
pub open spec fn show_typed_arms(a: Seq<(TypeModel, SStmtModel)>, n: Option<Names>, d: nat) -> Seq<char>
    decreases a, 0nat,
{
    if a.len() == 0 {
        Seq::empty()
    } else {
        proof {
            assert(decreases_to!(a => a.last()));
        }
        show_typed_arms(a.drop_last(), n, d) + indent(d) + show_type(a.last().0, n) + seq![' '] + show_stmt(a.last().1, n, d) + seq!['\n']
    }
}

/// The arguments of a function: the first as its name, a space and its
/// type; each further one as a space, its name and its type.
pub open spec fn show_inputs(i: Seq<(Seq<char>, TypeModel)>, n: Option<Names>) -> Seq<char>
    decreases i.len(),
{
    if i.len() == 0 {
        Seq::empty()
    } else if i.len() == 1 {
        i[0].0 + seq![' '] + show_type(i[0].1, n)
    } else {
        show_inputs(i.drop_last(), n) + seq![' '] + i.last().0 + show_type(i.last().1, n)
    }
}

/// A statement that can be written: its values hold no float, and the
/// names of the custom types in it are known.
pub open spec fn writable_stmt(s: SStmtModel, n: Option<Names>) -> bool
    decreases s, 0nat,
{
    &&& match s.output_to {
        Some((t, _)) => writable_stmt(*t, n),
        None => true,
    }
    &&& match s.force {
        Some(t) => named_singles(t.types, n),
        None => true,
    }
    &&& writable_kind(*s.kind, n)
}

pub open spec fn writable_kind(k: SKindModel, n: Option<Names>) -> bool
    decreases k, 0nat,
{
    match k {
        SKindModel::Value(v) => writable_value(v, n),
        SKindModel::Tuple(v) => writable_stmts(v, n),
        SKindModel::List(v) => writable_stmts(v, n),
        SKindModel::FunctionCall(_, a) => writable_stmts(a, n),
        SKindModel::FunctionDefinition(_, inputs, b) => writable_inputs(inputs, n) && writable_stmts(b, n),
        SKindModel::Block(v) => writable_stmts(v, n),
        SKindModel::If(c, y, no) => writable_stmt(*c, n) && writable_stmt(*y, n) && match no {
            Some(no) => writable_stmt(*no, n),
            None => true,
        },
        SKindModel::Loop(b) => writable_stmt(*b, n),
        SKindModel::For(_, i, b) => writable_stmt(*i, n) && writable_stmt(*b, n),
        SKindModel::Switch(_, a, _) => writable_typed_arms(a, n),
        SKindModel::Match(_, a) => writable_arms(a, n),
        SKindModel::IndexFixed(s, _) => writable_stmt(*s, n),
        SKindModel::EnumVariant(_, s) => writable_stmt(*s, n),
        SKindModel::TypeDefinition(_, t) => named_singles(t.types, None),
        SKindModel::Variable(_, _) => true,
    }
}

pub open spec fn writable_stmts(v: Seq<SStmtModel>, n: Option<Names>) -> bool
    decreases v, 0nat,
{
    v.len() == 0 || (writable_stmts(v.drop_last(), n) && writable_stmt(v.last(), n))
}

pub open spec fn writable_arms(a: Seq<(SStmtModel, SStmtModel)>, n: Option<Names>) -> bool
    decreases a, 0nat,
{
    if a.len() == 0 {
        true
    } else {
        proof {
            assert(decreases_to!(a => a.last()));
        }
        writable_arms(a.drop_last(), n) && writable_stmt(a.last().0, n) && writable_stmt(a.last().1, n)
    }
}

pub open spec fn writable_typed_arms(a: Seq<(TypeModel, SStmtModel)>, n: Option<Names>) -> bool
    decreases a, 0nat,
{
    if a.len() == 0 {
        true
    } else {
        proof {
            assert(decreases_to!(a => a.last()));
        }
        writable_typed_arms(a.drop_last(), n) && named_singles(a.last().0.types, n) && writable_stmt(a.last().1, n)
    }
}

pub open spec fn writable_inputs(i: Seq<(Seq<char>, TypeModel)>, n: Option<Names>) -> bool {
    forall|k: int| 0 <= k < i.len() ==> named_singles(#[trigger] i[k].1.types, n)
}

proof fn lemma_sstmts_model(s: Seq<SStatement>)
    ensures
        sstmts_model(s).len() == s.len(),
        forall|i: int| #![trigger sstmts_model(s)[i]] 0 <= i < s.len() ==> sstmts_model(s)[i] == s[i].model(),
    decreases s.len(),
{
    if s.len() > 0 {
        lemma_sstmts_model(s.drop_last());
        assert forall|i: int| #![trigger sstmts_model(s)[i]] 0 <= i < s.len() implies sstmts_model(s)[i] == s[i].model() by {
            if i < s.len() - 1 {
                assert(s.drop_last()[i] == s[i]);
            }
        }
    }
}

proof fn lemma_arms_model(s: Seq<(SStatement, SStatement)>)
    ensures
        arms_model(s).len() == s.len(),
        forall|i: int| #![trigger arms_model(s)[i]] 0 <= i < s.len() ==> arms_model(s)[i] == (s[i].0.model(), s[i].1.model()),
    decreases s.len(),
{
    if s.len() > 0 {
        lemma_arms_model(s.drop_last());
        assert forall|i: int| #![trigger arms_model(s)[i]] 0 <= i < s.len() implies arms_model(s)[i] == (s[i].0.model(), s[i].1.model()) by {
            if i < s.len() - 1 {
                assert(s.drop_last()[i] == s[i]);
            }
        }
    }
}

proof fn lemma_typed_arms_model(s: Seq<(VType, SStatement)>)
    ensures
        typed_arms_model(s).len() == s.len(),
        forall|i: int| #![trigger typed_arms_model(s)[i]] 0 <= i < s.len() ==> typed_arms_model(s)[i] == (s[i].0.model(), s[i].1.model()),
    decreases s.len(),
{
    if s.len() > 0 {
        lemma_typed_arms_model(s.drop_last());
        assert forall|i: int| #![trigger typed_arms_model(s)[i]] 0 <= i < s.len() implies typed_arms_model(s)[i] == (s[i].0.model(), s[i].1.model()) by {
            if i < s.len() - 1 {
                assert(s.drop_last()[i] == s[i]);
            }
        }
    }
}

proof fn lemma_writable_stmts(v: Seq<SStmtModel>, n: Option<Names>, i: int)
    requires
        writable_stmts(v, n),
        0 <= i < v.len(),
    ensures
        writable_stmt(v[i], n),
    decreases v.len(),
{
    if i < v.len() - 1 {
        lemma_writable_stmts(v.drop_last(), n, i);
    }
}

proof fn lemma_writable_arms(v: Seq<(SStmtModel, SStmtModel)>, n: Option<Names>, i: int)
    requires
        writable_arms(v, n),
        0 <= i < v.len(),
    ensures
        writable_stmt(v[i].0, n),
        writable_stmt(v[i].1, n),
    decreases v.len(),
{
    if i < v.len() - 1 {
        lemma_writable_arms(v.drop_last(), n, i);
    }
}

proof fn lemma_writable_typed_arms(v: Seq<(TypeModel, SStmtModel)>, n: Option<Names>, i: int)
    requires
        writable_typed_arms(v, n),
        0 <= i < v.len(),
    ensures
        named_singles(v[i].0.types, n),
        writable_stmt(v[i].1, n),
    decreases v.len(),
{
    if i < v.len() - 1 {
        lemma_writable_typed_arms(v.drop_last(), n, i);
    }
}

/// The indentation one level deeper.
fn deeper(prefix: &String, Ghost(d): Ghost<nat>) -> (r: String)
    requires
        prefix@ == indent(d),
    ensures
        r@ == indent(d + 1),
{
    let mut r = prefix.clone();
    append(&mut r, "    ");
    proof { reveal_strlit("    "); }
    assert(r@ =~= indent(d + 1));
    r
}

/// Writes statements: `mode` 0 separates them by spaces, 1 puts a space
/// after each, 2 puts each on a line of its own at the depth of `prefix`.
fn write_sstmts(v: &Vec<SStatement>, info: Option<&GlobalScriptInfo>, prefix: &String, Ghost(d): Ghost<nat>, mode: u8, out: &mut String)
    requires
        prefix@ == indent(d),
        writable_stmts(sstmts_model(v@), names_of(info)),
        mode <= 2,
    ensures
        mode == 0 ==> final(out)@ == old(out)@ + show_sp(sstmts_model(v@), names_of(info), d),
        mode == 1 ==> final(out)@ == old(out)@ + show_list(sstmts_model(v@), names_of(info), d),
        mode == 2 ==> final(out)@ == old(out)@ + show_lines(sstmts_model(v@), names_of(info), d),
    decreases v, 0nat,
{
    let ghost m = sstmts_model(v@);
    let ghost n = names_of(info);
    proof { lemma_sstmts_model(v@); }
    let mut i: usize = 0;
    while i < v.len()
        invariant
            i <= v@.len(),
            prefix@ == indent(d),
            m == sstmts_model(v@),
            m.len() == v@.len(),
            forall|j: int| #![trigger m[j]] 0 <= j < v@.len() ==> m[j] == v@[j].model(),
            n == names_of(info),
            writable_stmts(m, n),
            mode <= 2,
            mode == 0 ==> out@ == old(out)@ + show_sp(m.take(i as int), n, d),
            mode == 1 ==> out@ == old(out)@ + show_list(m.take(i as int), n, d),
            mode == 2 ==> out@ == old(out)@ + show_lines(m.take(i as int), n, d),
        decreases v@.len() - i,
    {
        proof {
            assert(decreases_to!(v@ => v@[i as int]));
            assert(m.take(i + 1).drop_last() =~= m.take(i as int));
            assert(m[i as int] == v@[i as int].model());
            lemma_writable_stmts(m, n, i as int);
            if i == 0 {
                assert(m.take(1) =~= seq![m[0]]);
            }
        }
        if mode == 0 && i > 0 {
            string_push(out, ' ');
        }
        if mode == 2 {
            append(out, prefix.as_str());
        }
        write_sstmt(&v[i], info, prefix, Ghost(d), out);
        if mode == 1 {
            string_push(out, ' ');
        }
        if mode == 2 {
            string_push(out, '\n');
        }
        i += 1;
    }
    assert(m.take(i as int) =~= m);
}

fn write_block(v: &Vec<SStatement>, info: Option<&GlobalScriptInfo>, prefix: &String, Ghost(d): Ghost<nat>, out: &mut String)
    requires
        prefix@ == indent(d),
        writable_stmts(sstmts_model(v@), names_of(info)),
    ensures
        final(out)@ == old(out)@ + show_block(sstmts_model(v@), names_of(info), d),
    decreases v, 1nat,
{
    proof {
        lemma_sstmts_model(v@);
        reveal_strlit("{}");
        reveal_strlit("{\n");
    }
    if v.len() == 0 {
        append(out, "{}");
    } else {
        append(out, "{\n");
        let p2 = deeper(prefix, Ghost(d));
        write_sstmts(v, info, &p2, Ghost(d + 1), 2, out);
        append(out, prefix.as_str());
        string_push(out, '}');
    }
    assert(final(out)@ =~= old(out)@ + show_block(sstmts_model(v@), names_of(info), d));
}

fn write_arms(a: &Vec<(SStatement, SStatement)>, info: Option<&GlobalScriptInfo>, prefix: &String, Ghost(d): Ghost<nat>, out: &mut String)
    requires
        prefix@ == indent(d),
        writable_arms(arms_model(a@), names_of(info)),
    ensures
        final(out)@ == old(out)@ + show_arms(arms_model(a@), names_of(info), d),
    decreases a, 0nat,
{
    let ghost m = arms_model(a@);
    let ghost n = names_of(info);
    proof { lemma_arms_model(a@); }
    let mut i: usize = 0;
    while i < a.len()
        invariant
            i <= a@.len(),
            prefix@ == indent(d),
            m == arms_model(a@),
            m.len() == a@.len(),
            forall|j: int| #![trigger m[j]] 0 <= j < a@.len() ==> m[j] == (a@[j].0.model(), a@[j].1.model()),
            n == names_of(info),
            writable_arms(m, n),
            out@ == old(out)@ + show_arms(m.take(i as int), n, d),
        decreases a@.len() - i,
    {
        proof {
            assert(decreases_to!(a@ => a@[i as int]));
            assert(decreases_to!(a@[i as int] => a@[i as int].0));
            assert(decreases_to!(a@[i as int] => a@[i as int].1));
            assert(m.take(i + 1).drop_last() =~= m.take(i as int));
            assert(m.take(i + 1).last() == m[i as int]);
            lemma_writable_arms(m, n, i as int);
        }
        append(out, prefix.as_str());
        write_sstmt(&a[i].0, info, prefix, Ghost(d), out);
        string_push(out, ' ');
        write_sstmt(&a[i].1, info, prefix, Ghost(d), out);
        string_push(out, '\n');
        i += 1;
    }
    assert(m.take(i as int) =~= m);
}

fn write_typed_arms(a: &Vec<(VType, SStatement)>, info: Option<&GlobalScriptInfo>, prefix: &String, Ghost(d): Ghost<nat>, out: &mut String)
    requires
        prefix@ == indent(d),
        writable_typed_arms(typed_arms_model(a@), names_of(info)),
    ensures
        final(out)@ == old(out)@ + show_typed_arms(typed_arms_model(a@), names_of(info), d),
    decreases a, 0nat,
{
    let ghost m = typed_arms_model(a@);
    let ghost n = names_of(info);
    proof { lemma_typed_arms_model(a@); }
    let mut i: usize = 0;
    while i < a.len()
        invariant
            i <= a@.len(),
            prefix@ == indent(d),
            m == typed_arms_model(a@),
            m.len() == a@.len(),
            forall|j: int| #![trigger m[j]] 0 <= j < a@.len() ==> m[j] == (a@[j].0.model(), a@[j].1.model()),
            n == names_of(info),
            writable_typed_arms(m, n),
            out@ == old(out)@ + show_typed_arms(m.take(i as int), n, d),
        decreases a@.len() - i,
    {
        proof {
            assert(decreases_to!(a@ => a@[i as int]));
            assert(decreases_to!(a@[i as int] => a@[i as int].1));
            assert(m.take(i + 1).drop_last() =~= m.take(i as int));
            assert(m.take(i + 1).last() == m[i as int]);
            lemma_writable_typed_arms(m, n, i as int);
        }
        append(out, prefix.as_str());
        write_type(&a[i].0, info, out);
        string_push(out, ' ');
        write_sstmt(&a[i].1, info, prefix, Ghost(d), out);
        string_push(out, '\n');
        i += 1;
    }
    assert(m.take(i as int) =~= m);
}

fn write_inputs(v: &Vec<(String, VType)>, info: Option<&GlobalScriptInfo>, out: &mut String)
    requires
        writable_inputs(inputs_model(v@), names_of(info)),
    ensures
        final(out)@ == old(out)@ + show_inputs(inputs_model(v@), names_of(info)),
{
    let ghost m = inputs_model(v@);
    let ghost n = names_of(info);
    let mut i: usize = 0;
    while i < v.len()
        invariant
            i <= v@.len(),
            m == inputs_model(v@),
            m.len() == v@.len(),
            n == names_of(info),
            writable_inputs(m, n),
            out@ == old(out)@ + show_inputs(m.take(i as int), n),
        decreases v@.len() - i,
    {
        proof {
            assert(m.take(i + 1).drop_last() =~= m.take(i as int));
            assert(m.take(i + 1).last() == m[i as int]);
            assert(m[i as int] == (v@[i as int].0@, v@[i as int].1.model()));
            assert(named_singles(m[i as int].1.types, n));
            if i == 0 {
                assert(m.take(1)[0] == m[0]);
            }
        }
        if i > 0 {
            string_push(out, ' ');
            append(out, v[i].0.as_str());
            write_type(&v[i].1, info, out);
        } else {
            append(out, v[i].0.as_str());
            string_push(out, ' ');
            write_type(&v[i].1, info, out);
        }
        i += 1;
    }
    assert(m.take(i as int) =~= m);
}

fn write_sstmt(s: &SStatement, info: Option<&GlobalScriptInfo>, prefix: &String, Ghost(d): Ghost<nat>, out: &mut String)
    requires
        prefix@ == indent(d),
        writable_stmt(s.model(), names_of(info)),
    ensures
        final(out)@ == old(out)@ + show_stmt(s.model(), names_of(info), d),
    decreases s, 0nat,
{
    let ghost o0 = out@;
    match &s.output_to {
        Some((t, k)) => {
            let mut j: usize = 0;
            while j < *k
                invariant
                    j <= *k,
                    out@ == o0 + stars(j as nat),
                decreases *k - j,
            {
                string_push(out, '*');
                j += 1;
                assert(out@ =~= o0 + stars(j as nat));
            }
            let empty = String::new();
            assert(empty@ =~= indent(0));
            write_sstmt(t, info, &empty, Ghost(0), out);
            append(out, " = ");
        },
        None => {},
    }
    let ghost o1 = out@;
    match &s.force_output_type {
        Some(t) => {
            append(out, " -> ");
            write_type(t, info, out);
        },
        None => {},
    }
    let ghost o2 = out@;
    write_kind(&s.statement, info, prefix, Ghost(d), out);
    proof {
        reveal_strlit(" = ");
        reveal_strlit(" -> ");
    }
    assert(final(out)@ =~= old(out)@ + show_stmt(s.model(), names_of(info), d));
}

#[verifier::rlimit(100)]
#[verifier::spinoff_prover]
fn write_kind(k: &SStatementEnum, info: Option<&GlobalScriptInfo>, prefix: &String, Ghost(d): Ghost<nat>, out: &mut String)
    requires
        prefix@ == indent(d),
        writable_kind(k.model(), names_of(info)),
    ensures
        final(out)@ == old(out)@ + show_kind(k.model(), names_of(info), d),
    decreases k, 0nat,
{
    proof {
        reveal_strlit("...]");
        reveal_strlit("fn ");
        reveal_strlit(") ");
        reveal_strlit("if ");
        reveal_strlit(" else ");
        reveal_strlit("loop ");
        reveal_strlit("for ");
        reveal_strlit("switch!");
        reveal_strlit("switch");
        reveal_strlit(" {\n");
        reveal_strlit("match ");
        reveal_strlit(" {");
        reveal_strlit(": ");
        reveal_strlit("type ");
    }
    match k {
        SStatementEnum::Value(v) => write_value(v, info, out),
        SStatementEnum::Tuple(v) => {
            string_push(out, '[');
            write_sstmts(v, info, prefix, Ghost(d), 0, out);
            string_push(out, ']');
        },
        SStatementEnum::List(v) => {
            string_push(out, '[');
            write_sstmts(v, info, prefix, Ghost(d), 1, out);
            append(out, "...]");
        },
        SStatementEnum::Variable(name, r) => {
            if *r {
                string_push(out, '&');
            }
            append(out, name.as_str());
        },
        SStatementEnum::FunctionCall(f, a) => {
            append(out, f.as_str());
            string_push(out, '(');
            write_sstmts(a, info, prefix, Ghost(d), 0, out);
            string_push(out, ')');
        },
        SStatementEnum::FunctionDefinition(name, f) => {
            match name {
                Some(nm) => {
                    append(out, "fn ");
                    append(out, nm.as_str());
                },
                None => {},
            }
            string_push(out, '(');
            write_inputs(&f.inputs, info, out);
            append(out, ") ");
            write_block(&f.block.statements, info, prefix, Ghost(d), out);
        },
        SStatementEnum::Block(b) => write_block(&b.statements, info, prefix, Ghost(d), out),
        SStatementEnum::If(c, y, no) => {
            append(out, "if ");
            write_sstmt(c, info, prefix, Ghost(d), out);
            string_push(out, ' ');
            write_sstmt(y, info, prefix, Ghost(d), out);
            match no {
                Some(no) => {
                    append(out, " else ");
                    write_sstmt(no, info, prefix, Ghost(d), out);
                },
                None => {},
            }
        },
        SStatementEnum::Loop(b) => {
            append(out, "loop ");
            write_sstmt(b, info, prefix, Ghost(d), out);
        },
        SStatementEnum::For(v, i, b) => {
            append(out, "for ");
            append(out, v.as_str());
            string_push(out, ' ');
            write_sstmt(i, info, prefix, Ghost(d), out);
            string_push(out, ' ');
            write_sstmt(b, info, prefix, Ghost(d), out);
        },
        SStatementEnum::Switch(v, a, force) => {
            if *force {
                append(out, "switch!");
            } else {
                append(out, "switch");
            }
            string_push(out, ' ');
            append(out, v.as_str());
            append(out, " {\n");
            let p2 = deeper(prefix, Ghost(d));
            write_typed_arms(a, info, &p2, Ghost(d + 1), out);
            append(out, prefix.as_str());
            string_push(out, '}');
        },
        SStatementEnum::Match(v, a) => {
            append(out, "match ");
            append(out, v.as_str());
            append(out, " {");
            let p2 = deeper(prefix, Ghost(d));
            write_arms(a, info, &p2, Ghost(d + 1), out);
            append(out, prefix.as_str());
            string_push(out, '}');
        },
        SStatementEnum::IndexFixed(s, i) => {
            write_sstmt(s, info, prefix, Ghost(d), out);
            string_push(out, '.');
            push_decimal(out, *i);
        },
        SStatementEnum::EnumVariant(v, s) => {
            append(out, v.as_str());
            append(out, ": ");
            write_sstmt(s, info, prefix, Ghost(d), out);
        },
        SStatementEnum::TypeDefinition(name, t) => {
            append(out, "type ");
            append(out, name.as_str());
            string_push(out, ' ');
            write_type(t, None, out);
        },
    }
    assert(final(out)@ =~= old(out)@ + show_kind(k.model(), names_of(info), d));
}

impl SStatementEnum {
    /// What the statement does, as source text at the depth of `form`, as
    /// [`show_kind`] says; with `info`, enum variants and custom types are
    /// written with their names. `form` is left as it was.
    pub fn fmtgs(&self, info: Option<&GlobalScriptInfo>, form: &mut FormatInfo) -> (r: String)
        requires
            writable_kind(self.model(), names_of(info)),
        ensures
            r@ == show_kind(self.model(), names_of(info), old(form).depth as nat),
            final(form).depth == old(form).depth,
            final(form).brackets == old(form).brackets,
    {
        let prefix = form.line_prefix();
        let mut out = String::new();
        write_kind(self, info, &prefix, Ghost(form.depth as nat), &mut out);
        assert(out@ =~= show_kind(self.model(), names_of(info), form.depth as nat));
        out
    }
}

impl SStatement {
    /// The statement as source text at the depth of `form`, as [`show_stmt`]
    /// says. `form` is left as it was.
    pub fn fmtgs(&self, info: Option<&GlobalScriptInfo>, form: &mut FormatInfo) -> (r: String)
        requires
            writable_stmt(self.model(), names_of(info)),
        ensures
            r@ == show_stmt(self.model(), names_of(info), old(form).depth as nat),
            final(form).depth == old(form).depth,
            final(form).brackets == old(form).brackets,
    {
        let prefix = form.line_prefix();
        let mut out = String::new();
        write_sstmt(self, info, &prefix, Ghost(form.depth as nat), &mut out);
        assert(out@ =~= show_stmt(self.model(), names_of(info), form.depth as nat));
        out
    }
}

} // verus!
