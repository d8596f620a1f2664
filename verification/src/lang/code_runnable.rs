//! Running compiled statements: each statement computes a value, reading
//! and writing a store of numbered variables.
use vstd::prelude::*;
use crate::lang::builtins::BuiltinFunction;
use crate::lang::run_builtin::{builtin_spec, get_spec, matches_data, one_of, run_builtin, unit};
use crate::lang::val_data::{DataModel, VDataEnum, datas_model, group_data_lemmas};
use crate::libs::data_bytes::{list_type, list_type_spec};
use crate::text::{chars_to_string, string_chars};

verus! {

broadcast use {crate::lang::type_model::group_model_lemmas, group_data_lemmas};

/// What a statement does.
pub enum RStatementEnum {
    /// A fixed value.
    Value(VDataEnum),
    /// A tuple of the values of the statements, left to right.
    Tuple(Vec<RStatement>),
    /// A list of the values of the statements, typed by what they gave.
    List(Vec<RStatement>),
    /// The variable with this number, or a reference to it.
    Variable(usize, bool),
    /// A built-in function called on the values of the statements.
    BuiltinFunction(BuiltinFunction, Vec<RStatement>),
    /// The statements one after the other; the value of the last one.
    Block(Vec<RStatement>),
    /// The first branch where the condition is true, else the second.
    If(RStatement, RStatement, Option<RStatement>),
    /// The body again and again, until its value matches.
    Loop(RStatement),
    /// The body once for each item of the value, with the item in the
    /// variable, until the body's value matches.
    For(usize, RStatement, RStatement),
    /// The action of the first case whose condition's value matches, with
    /// what it matched as in the variable while the action runs.
    Match(usize, Vec<(RStatement, RStatement)>),
    /// The part at a fixed index of the value.
    IndexFixed(RStatement, usize),
    /// The value as the enum variant with this id.
    EnumVariant(usize, RStatement),
}

/// A statement, and the variable its value goes to, if any.
pub struct RStatement {
    pub output_to: Option<usize>,
    pub statement: Box<RStatementEnum>,
}

/// The mathematical value of a statement.
pub enum StmtModel {
    Value(DataModel),
    Tuple(Seq<StmtModel>),
    List(Seq<StmtModel>),
    Variable(usize, bool),
    Builtin(BuiltinFunction, Seq<StmtModel>),
    Block(Seq<StmtModel>),
    If(Box<StmtModel>, Box<StmtModel>, Option<Box<StmtModel>>),
    Loop(Box<StmtModel>),
    For(usize, Box<StmtModel>, Box<StmtModel>),
    /// The variable, and the condition and the action of each case.
    Match(usize, Seq<(StmtModel, StmtModel)>),
    IndexFixed(Box<StmtModel>, usize),
    EnumVariant(usize, Box<StmtModel>),
    /// The statement, its value written to a variable.
    Assign(usize, Box<StmtModel>),
}

pub open spec fn stmts_model(s: Seq<RStatement>) -> Seq<StmtModel>
    decreases s,
{
    if s.len() == 0 {
        Seq::empty()
    } else {
        stmts_model(s.drop_last()).push(s.last().model())
    }
}

pub open spec fn cases_model(s: Seq<(RStatement, RStatement)>) -> Seq<(StmtModel, StmtModel)>
    decreases s,
{
    if s.len() == 0 {
        Seq::empty()
    } else {
        cases_model(s.drop_last()).push((s.last().0.model(), s.last().1.model()))
    }
}

impl RStatement {
    pub open spec fn model(&self) -> StmtModel
        decreases self,
    {
        match self.output_to {
            Some(i) => StmtModel::Assign(i, Box::new(self.statement.model())),
            None => self.statement.model(),
        }
    }
}

impl RStatementEnum {
    pub open spec fn model(&self) -> StmtModel
        decreases self,
    {
        match self {
            RStatementEnum::Value(v) => StmtModel::Value(v.model()),
            RStatementEnum::Tuple(v) => StmtModel::Tuple(stmts_model(v@)),
            RStatementEnum::List(v) => StmtModel::List(stmts_model(v@)),
            RStatementEnum::Variable(i, r) => StmtModel::Variable(*i, *r),
            RStatementEnum::BuiltinFunction(f, v) => StmtModel::Builtin(*f, stmts_model(v@)),
            RStatementEnum::Block(v) => StmtModel::Block(stmts_model(v@)),
            RStatementEnum::If(c, t, e) => StmtModel::If(Box::new(c.model()), Box::new(t.model()), match e {
                Some(e) => Some(Box::new(e.model())),
                None => None,
            }),
            RStatementEnum::Loop(b) => StmtModel::Loop(Box::new(b.model())),
            RStatementEnum::For(x, c, b) => StmtModel::For(*x, Box::new(c.model()), Box::new(b.model())),
            RStatementEnum::Match(x, cases) => StmtModel::Match(*x, cases_model(cases@)),
            RStatementEnum::IndexFixed(s, i) => StmtModel::IndexFixed(Box::new(s.model()), *i),
            RStatementEnum::EnumVariant(e, s) => StmtModel::EnumVariant(*e, Box::new(s.model())),
        }
    }
}

pub broadcast proof fn lemma_stmts_model(s: Seq<RStatement>)
    ensures
        (#[trigger] stmts_model(s)).len() == s.len(),
        forall|i: int| #![trigger stmts_model(s)[i]] #![trigger s[i]] 0 <= i < s.len() ==> stmts_model(s)[i] == s[i].model(),
    decreases s.len(),
{
    if s.len() > 0 {
        lemma_stmts_model(s.drop_last());
        assert forall|i: int| 0 <= i < s.len() implies stmts_model(s)[i] == (#[trigger] s[i]).model() by {
            if i < s.len() - 1 {
                assert(s.drop_last()[i] == s[i]);
            }
        }
    }
}

/// The built-ins that change a list through a reference to it.
pub open spec fn is_list_change(f: BuiltinFunction) -> bool {
    f == BuiltinFunction::Push || f == BuiltinFunction::Insert || f == BuiltinFunction::Pop || f == BuiltinFunction::Remove
}

/// `push`, `insert`, `pop` or `remove` on the list in variable `i`, with the
/// other arguments' values `xs`: the value and the variables after it.
/// `push` and `insert` give an empty tuple and leave a value that is no list
/// as it is; `pop` and `remove` give the element taken out, in a tuple, or an
/// empty tuple where there is none. The list keeps the type it had.
pub open spec fn list_change_spec(f: BuiltinFunction, i: usize, xs: Seq<DataModel>, vars: Seq<DataModel>) -> Option<(DataModel, Seq<DataModel>)> {
    if i >= vars.len() {
        None
    } else {
        match vars[i as int] {
            DataModel::List(t, items) => if f == BuiltinFunction::Push {
                if xs.len() == 1 { Some((unit(), vars.update(i as int, DataModel::List(t, items.push(xs[0]))))) } else { None }
            } else if f == BuiltinFunction::Insert {
                if xs.len() == 2 {
                    match xs[0] {
                        DataModel::Int(k) => if 0 <= k <= items.len() {
                            Some((unit(), vars.update(i as int, DataModel::List(t, items.insert(k as int, xs[1])))))
                        } else {
                            None
                        },
                        _ => None,
                    }
                } else {
                    None
                }
            } else if f == BuiltinFunction::Pop {
                if xs.len() == 0 {
                    if items.len() > 0 {
                        Some((one_of(items.last()), vars.update(i as int, DataModel::List(t, items.drop_last()))))
                    } else {
                        Some((unit(), vars))
                    }
                } else {
                    None
                }
            } else {
                if xs.len() == 1 {
                    match xs[0] {
                        DataModel::Int(k) => if 0 <= k < items.len() {
                            Some((one_of(items[k as int]), vars.update(i as int, DataModel::List(t, items.remove(k as int)))))
                        } else {
                            Some((unit(), vars))
                        },
                        _ => None,
                    }
                } else {
                    None
                }
            },
            _ => if f == BuiltinFunction::Push {
                if xs.len() == 1 { Some((unit(), vars)) } else { None }
            } else if f == BuiltinFunction::Insert {
                if xs.len() == 2 && xs[0] is Int { Some((unit(), vars)) } else { None }
            } else {
                None
            },
        }
    }
}

/// The value of `a` then `b` as `and` and `or` compute them: the second is
/// run only when the first does not decide.
pub open spec fn short_circuit(f: BuiltinFunction, first: bool) -> bool {
    match f {
        BuiltinFunction::And => !first,
        _ => first,
    }
}

/// Running a statement on the variables `vars`: its value and the variables
/// after it, where it finishes within `fuel` loop rounds (each loop round
/// takes one unit, for the loop and what runs inside it) and does not fail.
/// It fails where a built-in function fails on its arguments
/// ([`builtin_spec`]), a condition is no boolean, a variable does not
/// exist, or a fixed index finds no part.
pub open spec fn eval_spec(st: StmtModel, vars: Seq<DataModel>, fuel: nat) -> Option<(DataModel, Seq<DataModel>)>
    decreases fuel, st, 0nat,
{
    match st {
        StmtModel::Value(d) => Some((d, vars)),
        StmtModel::Tuple(v) => match evals_spec(v, vars, fuel) {
            Some((xs, v2)) => Some((DataModel::Tuple(xs), v2)),
            None => None,
        },
        StmtModel::List(v) => match evals_spec(v, vars, fuel) {
            Some((xs, v2)) => Some((DataModel::List(list_type_spec(xs), xs), v2)),
            None => None,
        },
        StmtModel::Variable(i, r) => if i < vars.len() {
            Some((if r { DataModel::Reference(Box::new(vars[i as int])) } else { vars[i as int] }, vars))
        } else {
            None
        },
        StmtModel::Builtin(f, v) => if is_list_change(f) && v.len() >= 1 && v[0] is Variable && v[0]->Variable_1 {
            match evals_spec(v.skip(1), vars, fuel) {
                Some((xs, v1)) => list_change_spec(f, v[0]->Variable_0, xs, v1),
                None => None,
            }
        } else if (f == BuiltinFunction::And || f == BuiltinFunction::Or) && v.len() == 2 {
            match eval_spec(v[0], vars, fuel) {
                Some((DataModel::Bool(a), v1)) => if short_circuit(f, a) {
                    Some((DataModel::Bool(a), v1))
                } else {
                    match eval_spec(v[1], v1, fuel) {
                        Some((DataModel::Bool(b), v2)) => Some((DataModel::Bool(b), v2)),
                        _ => None,
                    }
                },
                _ => None,
            }
        } else {
            match evals_spec(v, vars, fuel) {
                Some((xs, v2)) => match builtin_spec(f, xs) {
                    Some(x) => Some((x, v2)),
                    None => None,
                },
                None => None,
            }
        },
        StmtModel::Block(v) => match evals_spec(v, vars, fuel) {
            Some((xs, v2)) => Some((if xs.len() > 0 { xs.last() } else { unit() }, v2)),
            None => None,
        },
        StmtModel::If(c, t, e) => match eval_spec(*c, vars, fuel) {
            Some((DataModel::Bool(b), v1)) => if b {
                eval_spec(*t, v1, fuel)
            } else {
                match e {
                    Some(e) => eval_spec(*e, v1, fuel),
                    None => Some((unit(), v1)),
                }
            },
            _ => None,
        },
        StmtModel::Loop(b) => if fuel == 0 {
            None
        } else {
            match eval_spec(*b, vars, (fuel - 1) as nat) {
                Some((x, v1)) => match matches_data(x) {
                    Some(y) => Some((y, v1)),
                    None => eval_spec(st, v1, (fuel - 1) as nat),
                },
                None => None,
            }
        },
        StmtModel::For(x, c, b) => match eval_spec(*c, vars, fuel) {
            Some((d, v1)) => match for_items(d) {
                Some(items) => for_spec(x, items, *b, v1, fuel),
                None => None,
            },
            None => None,
        },
        StmtModel::Match(x, cases) => match_spec(x, cases, vars, fuel),
        StmtModel::IndexFixed(s, i) => match eval_spec(*s, vars, fuel) {
            Some((x, v1)) => match get_spec(x, i as int) {
                Some(y) => Some((y, v1)),
                None => None,
            },
            None => None,
        },
        StmtModel::EnumVariant(e, s) => match eval_spec(*s, vars, fuel) {
            Some((x, v1)) => Some((DataModel::EnumVariant(e, Box::new(x)), v1)),
            None => None,
        },
        StmtModel::Assign(i, s) => match eval_spec(*s, vars, fuel) {
            Some((x, v1)) => if i < v1.len() { Some((unit(), v1.update(i as int, x))) } else { None },
            None => None,
        },
    }
}

/// What a `for` goes through: the integers from 0 up to an integer, the
/// characters of a string (each as a string), the elements of a tuple or a
/// list.
pub open spec fn for_items(d: DataModel) -> Option<Seq<DataModel>> {
    match d {
        DataModel::Int(n) => Some(Seq::new(if n > 0 { n as nat } else { 0 }, |k: int| DataModel::Int(k as isize))),
        DataModel::String(s) => Some(Seq::new(s.len(), |k: int| DataModel::String(seq![s[k]]))),
        DataModel::Tuple(v) => Some(v),
        DataModel::List(_, v) => Some(v),
        _ => None,
    }
}

/// The body of a `for` for each of `items` in turn, with the item in
/// variable `x`, until the body's value matches: what it matched as;
/// an empty tuple when no round matched.
pub open spec fn for_spec(x: usize, items: Seq<DataModel>, b: StmtModel, vars: Seq<DataModel>, fuel: nat) -> Option<(DataModel, Seq<DataModel>)>
    decreases fuel, b, items.len(),
{
    if items.len() == 0 {
        Some((unit(), vars))
    } else if x >= vars.len() {
        None
    } else {
        match eval_spec(b, vars.update(x as int, items[0]), fuel) {
            Some((r, v1)) => match matches_data(r) {
                Some(y) => Some((y, v1)),
                None => for_spec(x, items.drop_first(), b, v1, fuel),
            },
            None => None,
        }
    }
}

/// The cases of a `match`, tried in order: the first condition whose value
/// matches runs its action with what it matched as in variable `x`, and the
/// variable gets its value back afterwards; an empty tuple when no case
/// matches.
pub open spec fn match_spec(x: usize, cases: Seq<(StmtModel, StmtModel)>, vars: Seq<DataModel>, fuel: nat) -> Option<(DataModel, Seq<DataModel>)>
    decreases fuel, cases, 0nat,
{
    if cases.len() == 0 {
        Some((unit(), vars))
    } else {
        proof {
            assert(decreases_to!(cases => cases[0]));
        }
        match eval_spec(cases[0].0, vars, fuel) {
            Some((c, v1)) => match matches_data(c) {
                Some(m) => if x < v1.len() {
                    match eval_spec(cases[0].1, v1.update(x as int, m), fuel) {
                        Some((r, v2)) => if x < v2.len() { Some((r, v2.update(x as int, v1[x as int]))) } else { None },
                        None => None,
                    }
                } else {
                    None
                },
                None => match_spec(x, cases.drop_first(), v1, fuel),
            },
            None => None,
        }
    }
}

/// Running statements one after the other: their values and the variables
/// after the last one.
pub open spec fn evals_spec(s: Seq<StmtModel>, vars: Seq<DataModel>, fuel: nat) -> Option<(Seq<DataModel>, Seq<DataModel>)>
    decreases fuel, s, 0nat,
{
    if s.len() == 0 {
        Some((Seq::empty(), vars))
    } else {
        match evals_spec(s.drop_last(), vars, fuel) {
            Some((xs, v1)) => match eval_spec(s.last(), v1, fuel) {
                Some((x, v2)) => Some((xs.push(x), v2)),
                None => None,
            },
            None => None,
        }
    }
}

/// Once running a prefix of the statements fails, running more fails too.
proof fn lemma_evals_stop(s: Seq<StmtModel>, vars: Seq<DataModel>, fuel: nat, m: int)
    requires
        0 <= m <= s.len(),
        evals_spec(s.take(m), vars, fuel) is None,
    ensures
        evals_spec(s, vars, fuel) is None,
    decreases s.len() - m,
{
    if m < s.len() {
        assert(s.take(m + 1).drop_last() =~= s.take(m));
        lemma_evals_stop(s, vars, fuel, m + 1);
    } else {
        assert(s.take(m) =~= s);
    }
}

fn eval_all(sts: &Vec<RStatement>, vars: &mut Vec<VDataEnum>, fuel: u64) -> (r: Option<Vec<VDataEnum>>)
    ensures
        match evals_spec(stmts_model(sts@), datas_model(old(vars)@), fuel as nat) {
            Some((xs, v2)) => r matches Some(x) && datas_model(x@) == xs && datas_model(final(vars)@) == v2,
            None => r is None,
        },
    decreases fuel, sts, 1nat,
{
    proof {
        lemma_stmts_model(sts@);
        assert(stmts_model(sts@).skip(0) =~= stmts_model(sts@));
    }
    eval_from(sts, 0, vars, fuel)
}

/// Runs the statements from index `from` on, one after the other.
fn eval_from(sts: &Vec<RStatement>, from: usize, vars: &mut Vec<VDataEnum>, fuel: u64) -> (r: Option<Vec<VDataEnum>>)
    requires
        from <= sts@.len(),
    ensures
        match evals_spec(stmts_model(sts@).skip(from as int), datas_model(old(vars)@), fuel as nat) {
            Some((xs, v2)) => r matches Some(x) && datas_model(x@) == xs && datas_model(final(vars)@) == v2,
            None => r is None,
        },
    decreases fuel, sts, 0nat,
{
    let ghost full = stmts_model(sts@);
    let ghost m = full.skip(from as int);
    let ghost vars0 = datas_model(vars@);
    proof { lemma_stmts_model(sts@); }
    let mut out: Vec<VDataEnum> = Vec::new();
    let mut i: usize = from;
    assert(m.take(0) =~= Seq::<StmtModel>::empty());
    assert(datas_model(out@) =~= Seq::<DataModel>::empty());
    while i < sts.len()
        invariant
            from <= i <= sts@.len(),
            full == stmts_model(sts@),
            m == full.skip(from as int),
            full.len() == sts@.len(),
            m.len() == sts@.len() - from,
            forall|j: int| 0 <= j < sts@.len() ==> #[trigger] full[j] == sts@[j].model(),
            vars0 == datas_model(old(vars)@),
            evals_spec(m.take(i - from), vars0, fuel as nat) == Some((datas_model(out@), datas_model(vars@))),
        decreases sts@.len() - i,
    {
        proof {
            assert(decreases_to!(sts@ => sts@[i as int]));
            assert(m.take(i - from + 1).drop_last() =~= m.take(i - from));
            assert(m[i - from] == full[i as int]);
            assert(full[i as int] == sts@[i as int].model());
        }
        match eval(&sts[i], vars, fuel) {
            Some(x) => {
                let ghost pre = datas_model(out@);
                let ghost xm = x.model();
                out.push(x);
                assert(datas_model(out@) =~= pre.push(xm));
            },
            None => {
                proof { lemma_evals_stop(m, vars0, fuel as nat, i - from + 1); }
                return None;
            },
        }
        i += 1;
    }
    assert(m.take(i - from) =~= m);
    Some(out)
}

/// Runs `st` on the variables `vars` with `fuel` loop rounds, as
/// [`eval_spec`] says: its value, with `vars` changed as the statement
/// changes them; `None` where it fails or runs out of fuel.
pub fn eval(st: &RStatement, vars: &mut Vec<VDataEnum>, fuel: u64) -> (r: Option<VDataEnum>)
    ensures
        match eval_spec(st.model(), datas_model(old(vars)@), fuel as nat) {
            Some((x, v2)) => r matches Some(y) && y.model() == x && datas_model(final(vars)@) == v2,
            None => r is None,
        },
    decreases fuel, st, 0nat,
{
    match st.output_to {
        Some(i) => {
            let x = match eval_kind(&st.statement, vars, fuel) {
                Some(x) => x,
                None => return None,
            };
            if i < vars.len() {
                let ghost pre = datas_model(vars@);
                let ghost xm = x.model();
                vars.set(i, x);
                assert(datas_model(vars@) =~= pre.update(i as int, xm));
                Some(unit_value())
            } else {
                None
            }
        },
        None => eval_kind(&st.statement, vars, fuel),
    }
}

/// `push`, `insert`, `pop` or `remove` on the list in variable `i`, as
/// [`list_change_spec`] says.
fn change_list(f: &BuiltinFunction, i: usize, xs: Vec<VDataEnum>, vars: &mut Vec<VDataEnum>) -> (r: Option<VDataEnum>)
    requires
        is_list_change(*f),
    ensures
        match list_change_spec(*f, i, datas_model(xs@), datas_model(old(vars)@)) {
            Some((x, v2)) => r matches Some(y) && y.model() == x && datas_model(final(vars)@) == v2,
            None => r is None,
        },
{
    let ghost vm = datas_model(vars@);
    let ghost xm = datas_model(xs@);
    if i >= vars.len() {
        return None;
    }
    assert(vm[i as int] == vars@[i as int].model());
    let cur = vars[i].clone_data();
    let mut xs = xs;
    match cur {
        VDataEnum::List(t, items) => {
            let ghost tm = t.model();
            let ghost im = datas_model(items@);
            let mut items = items;
            if *f == BuiltinFunction::Push {
                if xs.len() != 1 {
                    return None;
                }
                let x = xs.pop().unwrap();
                assert(x.model() == xm[0]);
                items.push(x);
                assert(datas_model(items@) =~= im.push(xm[0]));
                vars.set(i, VDataEnum::List(t, items));
                assert(datas_model(vars@) =~= vm.update(i as int, DataModel::List(tm, im.push(xm[0]))));
                Some(unit_value())
            } else if *f == BuiltinFunction::Insert {
                if xs.len() != 2 {
                    return None;
                }
                let x = xs.pop().unwrap();
                assert(x.model() == xm[1]);
                let k = match &xs[0] {
                    VDataEnum::Int(k) => *k,
                    _ => return None,
                };
                if k < 0 || k as usize > items.len() {
                    return None;
                }
                items.insert(k as usize, x);
                assert(datas_model(items@) =~= im.insert(k as int, xm[1]));
                vars.set(i, VDataEnum::List(t, items));
                assert(datas_model(vars@) =~= vm.update(i as int, DataModel::List(tm, im.insert(k as int, xm[1]))));
                Some(unit_value())
            } else if *f == BuiltinFunction::Pop {
                if xs.len() != 0 {
                    return None;
                }
                match items.pop() {
                    Some(x) => {
                        assert(x.model() == im.last());
                        assert(datas_model(items@) =~= im.drop_last());
                        vars.set(i, VDataEnum::List(t, items));
                        assert(datas_model(vars@) =~= vm.update(i as int, DataModel::List(tm, im.drop_last())));
                        Some(one_value(x))
                    },
                    None => Some(unit_value()),
                }
            } else {
                if xs.len() != 1 {
                    return None;
                }
                let k = match &xs[0] {
                    VDataEnum::Int(k) => *k,
                    _ => return None,
                };
                if k < 0 || k as usize >= items.len() {
                    return Some(unit_value());
                }
                let x = items.remove(k as usize);
                assert(x.model() == im[k as int]);
                assert(datas_model(items@) =~= im.remove(k as int));
                vars.set(i, VDataEnum::List(t, items));
                assert(datas_model(vars@) =~= vm.update(i as int, DataModel::List(tm, im.remove(k as int))));
                Some(one_value(x))
            }
        },
        _ => {
            if *f == BuiltinFunction::Push {
                if xs.len() == 1 { Some(unit_value()) } else { None }
            } else if *f == BuiltinFunction::Insert {
                if xs.len() == 2 {
                    match &xs[0] {
                        VDataEnum::Int(_) => Some(unit_value()),
                        _ => None,
                    }
                } else {
                    None
                }
            } else {
                None
            }
        },
    }
}

fn one_value(x: VDataEnum) -> (r: VDataEnum)
    ensures
        r.model() == one_of(x.model()),
{
    let ghost m = x.model();
    let r = VDataEnum::Tuple(vec![x]);
    assert(datas_model(r->Tuple_0@) =~= seq![m]);
    r
}

fn unit_value() -> (r: VDataEnum)
    ensures
        r.model() == unit(),
{
    let r = VDataEnum::Tuple(Vec::new());
    assert(datas_model(Seq::<VDataEnum>::empty()) =~= Seq::<DataModel>::empty());
    r
}

/// A loop: its body again and again until the body's value matches.
fn eval_loop(st: &RStatementEnum, b: &RStatement, vars: &mut Vec<VDataEnum>, fuel: u64) -> (r: Option<VDataEnum>)
    requires
        st.model() == StmtModel::Loop(Box::new(b.model())),
    ensures
        match eval_spec(st.model(), datas_model(old(vars)@), fuel as nat) {
            Some((x, v2)) => r matches Some(y) && y.model() == x && datas_model(final(vars)@) == v2,
            None => r is None,
        },
    decreases fuel, st, 1nat,
{
    let ghost res = eval_spec(st.model(), datas_model(old(vars)@), fuel as nat);
    let mut f: u64 = fuel;
    while f > 0
        invariant
            f <= fuel,
            st.model() == StmtModel::Loop(Box::new(b.model())),
            res == eval_spec(st.model(), datas_model(old(vars)@), fuel as nat),
            eval_spec(st.model(), datas_model(vars@), f as nat) == res,
        decreases f,
    {
        let ghost before = datas_model(vars@);
        let x = match eval(b, vars, f - 1) {
            Some(x) => x,
            None => return None,
        };
        match matches_value(x) {
            Some(y) => return Some(y),
            None => {},
        }
        f = f - 1;
    }
    None
}

/// A built-in function call: `and` and `or` run their second argument only
/// where the first does not decide; other functions get all their
/// arguments' values.
fn eval_builtin(st: &RStatementEnum, f: &BuiltinFunction, v: &Vec<RStatement>, vars: &mut Vec<VDataEnum>, fuel: u64) -> (r: Option<VDataEnum>)
    requires
        st.model() == StmtModel::Builtin(*f, stmts_model(v@)),
        decreases_to!(st => v),
    ensures
        match eval_spec(st.model(), datas_model(old(vars)@), fuel as nat) {
            Some((x, v2)) => r matches Some(y) && y.model() == x && datas_model(final(vars)@) == v2,
            None => r is None,
        },
    decreases fuel, st, 1nat,
{
    proof { lemma_stmts_model(v@); }
    let is_change = *f == BuiltinFunction::Push || *f == BuiltinFunction::Insert || *f == BuiltinFunction::Pop
        || *f == BuiltinFunction::Remove;
    if is_change && v.len() >= 1 {
        assert(stmts_model(v@)[0] == v@[0].model());
        let target: Option<usize> = match (&v[0].output_to, &*v[0].statement) {
            (None, RStatementEnum::Variable(i, true)) => Some(*i),
            _ => None,
        };
        match target {
            Some(i) => {
                proof { assert(decreases_to!(st => v)); }
                let xs = match eval_from(v, 1, vars, fuel) {
                    Some(xs) => xs,
                    None => return None,
                };
                return change_list(f, i, xs, vars);
            },
            None => {},
        }
    }
    if (*f == BuiltinFunction::And || *f == BuiltinFunction::Or) && v.len() == 2 {
        proof {
            assert(stmts_model(v@)[0] == v@[0].model());
            assert(stmts_model(v@)[1] == v@[1].model());
            assert(decreases_to!(v@ => v@[0]));
            assert(decreases_to!(v@ => v@[1]));
        }
        let a = match eval(&v[0], vars, fuel) {
            Some(VDataEnum::Bool(a)) => a,
            _ => return None,
        };
        let stop = if *f == BuiltinFunction::And { !a } else { a };
        if stop {
            return Some(VDataEnum::Bool(a));
        }
        match eval(&v[1], vars, fuel) {
            Some(VDataEnum::Bool(b)) => Some(VDataEnum::Bool(b)),
            _ => None,
        }
    } else {
        match eval_all(v, vars, fuel) {
            Some(xs) => run_builtin(f, &xs),
            None => None,
        }
    }
}

/// How many rounds a `for` over `d` makes, as [`for_items`] says.
fn for_count(d: &VDataEnum, cs: &Vec<char>) -> (r: Option<usize>)
    requires
        d matches VDataEnum::String(s) ==> cs@ == s@,
    ensures
        match for_items(d.model()) {
            Some(items) => r == Some(items.len() as usize) && items.len() <= usize::MAX,
            None => r is None,
        },
{
    match d {
        VDataEnum::Int(k) => Some(if *k > 0 { *k as usize } else { 0 }),
        VDataEnum::String(_) => Some(cs.len()),
        VDataEnum::Tuple(v) => {
            assert(datas_model(v@).len() == v@.len());
            Some(v.len())
        },
        VDataEnum::List(_, v) => {
            assert(datas_model(v@).len() == v@.len());
            Some(v.len())
        },
        _ => None,
    }
}

/// The item of round `i` of a `for` over `d`.
fn for_item(d: &VDataEnum, cs: &Vec<char>, i: usize) -> (r: VDataEnum)
    requires
        d matches VDataEnum::String(s) ==> cs@ == s@,
        for_items(d.model()) is Some,
        i < for_items(d.model())->0.len(),
    ensures
        r.model() == for_items(d.model())->0[i as int],
{
    match d {
        VDataEnum::Int(_) => VDataEnum::Int(i as isize),
        VDataEnum::String(_) => {
            let n: usize = cs.len();
            assert(i < n);
            let t = chars_to_string(cs, i, i + 1);
            assert(cs@.subrange(i as int, i + 1) =~= seq![cs@[i as int]]);
            VDataEnum::String(t)
        },
        VDataEnum::Tuple(v) => {
            assert(datas_model(v@)[i as int] == v@[i as int].model());
            v[i].clone_data()
        },
        VDataEnum::List(_, v) => {
            assert(datas_model(v@)[i as int] == v@[i as int].model());
            v[i].clone_data()
        },
        _ => VDataEnum::Bool(false),
    }
}

/// A `for`: the body once for each item of the value, with the item in
/// variable `x`, until the body's value matches.
fn eval_for(st: &RStatementEnum, x: usize, c: &RStatement, b: &RStatement, vars: &mut Vec<VDataEnum>, fuel: u64) -> (r: Option<VDataEnum>)
    requires
        st.model() == StmtModel::For(x, Box::new(c.model()), Box::new(b.model())),
        decreases_to!(st => c),
        decreases_to!(st => b),
    ensures
        match eval_spec(st.model(), datas_model(old(vars)@), fuel as nat) {
            Some((v, v2)) => r matches Some(y) && y.model() == v && datas_model(final(vars)@) == v2,
            None => r is None,
        },
    decreases fuel, st, 1nat,
{
    let ghost res = eval_spec(st.model(), datas_model(old(vars)@), fuel as nat);
    let d = match eval(c, vars, fuel) {
        Some(d) => d,
        None => return None,
    };
    let cs: Vec<char> = match &d {
        VDataEnum::String(t) => string_chars(t.as_str()),
        _ => Vec::new(),
    };
    let n = match for_count(&d, &cs) {
        Some(n) => n,
        None => return None,
    };
    let ghost items = for_items(d.model())->0;
    assert(items.skip(0) =~= items);
    let mut i: usize = 0;
    while i < n
        invariant
            i <= n,
            n == items.len(),
            for_items(d.model()) == Some(items),
            d matches VDataEnum::String(t) ==> cs@ == t@,
            decreases_to!(st => b),
            res == eval_spec(st.model(), datas_model(old(vars)@), fuel as nat),
            for_spec(x, items.skip(i as int), b.model(), datas_model(vars@), fuel as nat) == res,
        decreases n - i,
    {
        assert(items.skip(i as int)[0] == items[i as int]);
        assert(items.skip(i as int).drop_first() =~= items.skip(i + 1));
        if x >= vars.len() {
            return None;
        }
        let item = for_item(&d, &cs, i);
        let ghost pre = datas_model(vars@);
        let ghost im = item.model();
        vars.set(x, item);
        assert(datas_model(vars@) =~= pre.update(x as int, im));
        let v = match eval(b, vars, fuel) {
            Some(v) => v,
            None => return None,
        };
        match matches_value(v) {
            Some(y) => return Some(y),
            None => {},
        }
        i += 1;
    }
    Some(unit_value())
}

proof fn lemma_cases_model(s: Seq<(RStatement, RStatement)>)
    ensures
        cases_model(s).len() == s.len(),
        forall|i: int| #![trigger cases_model(s)[i]] 0 <= i < s.len() ==> cases_model(s)[i] == (s[i].0.model(), s[i].1.model()),
    decreases s.len(),
{
    if s.len() > 0 {
        lemma_cases_model(s.drop_last());
        assert forall|i: int| #![trigger cases_model(s)[i]] 0 <= i < s.len() implies cases_model(s)[i] == (s[i].0.model(), s[i].1.model()) by {
            if i < s.len() - 1 {
                assert(s.drop_last()[i] == s[i]);
            }
        }
    }
}

/// A `match`: the cases in order, as [`match_spec`] says.
fn eval_match(st: &RStatementEnum, x: usize, cases: &Vec<(RStatement, RStatement)>, vars: &mut Vec<VDataEnum>, fuel: u64) -> (r: Option<VDataEnum>)
    requires
        st.model() == StmtModel::Match(x, cases_model(cases@)),
        decreases_to!(st => cases),
    ensures
        match eval_spec(st.model(), datas_model(old(vars)@), fuel as nat) {
            Some((v, v2)) => r matches Some(y) && y.model() == v && datas_model(final(vars)@) == v2,
            None => r is None,
        },
    decreases fuel, st, 1nat,
{
    let ghost res = eval_spec(st.model(), datas_model(old(vars)@), fuel as nat);
    let ghost cm = cases_model(cases@);
    proof { lemma_cases_model(cases@); }
    assert(cm.skip(0) =~= cm);
    let mut k: usize = 0;
    while k < cases.len()
        invariant
            k <= cases@.len(),
            cm == cases_model(cases@),
            cm.len() == cases@.len(),
            forall|i: int| #![trigger cm[i]] 0 <= i < cases@.len() ==> cm[i] == (cases@[i].0.model(), cases@[i].1.model()),
            decreases_to!(st => cases),
            res == eval_spec(st.model(), datas_model(old(vars)@), fuel as nat),
            match_spec(x, cm.skip(k as int), datas_model(vars@), fuel as nat) == res,
        decreases cases@.len() - k,
    {
        proof {
            assert(decreases_to!(cases@ => cases@[k as int]));
            assert(decreases_to!(cases@[k as int] => cases@[k as int].0));
            assert(decreases_to!(cases@[k as int] => cases@[k as int].1));
            assert(cm.skip(k as int)[0] == cm[k as int]);
            assert(cm.skip(k as int).drop_first() =~= cm.skip(k + 1));
        }
        let c = match eval(&cases[k].0, vars, fuel) {
            Some(c) => c,
            None => return None,
        };
        match matches_value(c) {
            Some(m) => {
                if x >= vars.len() {
                    return None;
                }
                assert(datas_model(vars@)[x as int] == vars@[x as int].model());
                let og = vars[x].clone_data();
                let ghost v1 = datas_model(vars@);
                let ghost mm = m.model();
                vars.set(x, m);
                assert(datas_model(vars@) =~= v1.update(x as int, mm));
                let r = match eval(&cases[k].1, vars, fuel) {
                    Some(r) => r,
                    None => return None,
                };
                if x >= vars.len() {
                    return None;
                }
                let ghost v2 = datas_model(vars@);
                let ghost om = og.model();
                vars.set(x, og);
                assert(datas_model(vars@) =~= v2.update(x as int, om));
                return Some(r);
            },
            None => {},
        }
        k += 1;
    }
    assert(cm.skip(k as int).len() == 0);
    Some(unit_value())
}

#[verifier::rlimit(50)]
fn eval_kind(st: &RStatementEnum, vars: &mut Vec<VDataEnum>, fuel: u64) -> (r: Option<VDataEnum>)
    ensures
        match eval_spec(st.model(), datas_model(old(vars)@), fuel as nat) {
            Some((x, v2)) => r matches Some(y) && y.model() == x && datas_model(final(vars)@) == v2,
            None => r is None,
        },
    decreases fuel, st, 2nat,
{
    match st {
        RStatementEnum::Value(v) => Some(v.clone_data()),
        RStatementEnum::Tuple(v) => match eval_all(v, vars, fuel) {
            Some(xs) => Some(VDataEnum::Tuple(xs)),
            None => None,
        },
        RStatementEnum::List(v) => match eval_all(v, vars, fuel) {
            Some(xs) => {
                let t = list_type(&xs);
                Some(VDataEnum::List(t, xs))
            },
            None => None,
        },
        RStatementEnum::Variable(i, r) => {
            if *i < vars.len() {
                assert(datas_model(vars@)[*i as int] == vars@[*i as int].model());
                let x = vars[*i].clone_data();
                if *r {
                    Some(VDataEnum::Reference(Box::new(x)))
                } else {
                    Some(x)
                }
            } else {
                None
            }
        },
        RStatementEnum::BuiltinFunction(f, v) => eval_builtin(st, f, v, vars, fuel),
        RStatementEnum::Block(v) => match eval_all(v, vars, fuel) {
            Some(xs) => {
                if xs.len() > 0 {
                    let n = xs.len();
                    assert(datas_model(xs@)[n - 1] == xs@[n - 1].model());
                    Some(xs[n - 1].clone_data())
                } else {
                    Some(unit_value())
                }
            },
            None => None,
        },
        RStatementEnum::If(c, t, e) => {
            let b = match eval(c, vars, fuel) {
                Some(VDataEnum::Bool(b)) => b,
                _ => return None,
            };
            if b {
                eval(t, vars, fuel)
            } else {
                match e {
                    Some(e) => eval(e, vars, fuel),
                    None => Some(unit_value()),
                }
            }
        },
        RStatementEnum::Loop(b) => eval_loop(st, b, vars, fuel),
        RStatementEnum::For(x, c, b) => eval_for(st, *x, c, b, vars, fuel),
        RStatementEnum::Match(x, cases) => eval_match(st, *x, cases, vars, fuel),
        RStatementEnum::IndexFixed(s, i) => match eval(s, vars, fuel) {
            Some(x) => x.get(*i),
            None => None,
        },
        RStatementEnum::EnumVariant(e, s) => match eval(s, vars, fuel) {
            Some(x) => Some(VDataEnum::EnumVariant(*e, Box::new(x))),
            None => None,
        },
    }
}

/// What a value matches as, as [`matches_data`] says.
fn matches_value(x: VDataEnum) -> (r: Option<VDataEnum>)
    ensures
        match matches_data(x.model()) {
            Some(y) => r matches Some(z) && z.model() == y,
            None => r is None,
        },
{
    match x {
        VDataEnum::Tuple(v) => {
            if v.len() > 0 {
                assert(datas_model(v@)[0] == v@[0].model());
                Some(v[0].clone_data())
            } else {
                None
            }
        },
        VDataEnum::Bool(b) => if b { Some(VDataEnum::Bool(true)) } else { None },
        VDataEnum::EnumVariant(_, _) => None,
        other => Some(other),
    }
}

proof fn lemma_fuel(st: StmtModel, vars: Seq<DataModel>, f: nat, g: nat)
    requires
        f <= g,
        eval_spec(st, vars, f) is Some,
    ensures
        eval_spec(st, vars, g) == eval_spec(st, vars, f),
    decreases f, st, 0nat,
{
    match st {
        StmtModel::Tuple(v) => lemma_fuel_all(v, vars, f, g),
        StmtModel::List(v) => lemma_fuel_all(v, vars, f, g),
        StmtModel::Block(v) => lemma_fuel_all(v, vars, f, g),
        StmtModel::Builtin(fun, v) => {
            if is_list_change(fun) && v.len() >= 1 && v[0] is Variable && v[0]->Variable_1 {
                assert(decreases_to!(v => v.skip(1)));
                lemma_fuel_all(v.skip(1), vars, f, g);
            } else if (fun == BuiltinFunction::And || fun == BuiltinFunction::Or) && v.len() == 2 {
                lemma_fuel(v[0], vars, f, g);
                match eval_spec(v[0], vars, f) {
                    Some((x, v1)) => {
                        if eval_spec(v[1], v1, f) is Some {
                            lemma_fuel(v[1], v1, f, g);
                        }
                    },
                    None => {},
                }
            } else {
                lemma_fuel_all(v, vars, f, g);
            }
        },
        StmtModel::If(c, t, e) => {
            lemma_fuel(*c, vars, f, g);
            match eval_spec(*c, vars, f) {
                Some((x, v1)) => {
                    if eval_spec(*t, v1, f) is Some {
                        lemma_fuel(*t, v1, f, g);
                    }
                    match e {
                        Some(e) => {
                            if eval_spec(*e, v1, f) is Some {
                                lemma_fuel(*e, v1, f, g);
                            }
                        },
                        None => {},
                    }
                },
                None => {},
            }
        },
        StmtModel::Loop(b) => {
            lemma_fuel(*b, vars, (f - 1) as nat, (g - 1) as nat);
            match eval_spec(*b, vars, (f - 1) as nat) {
                Some((x, v1)) => {
                    if matches_data(x) is None {
                        lemma_fuel(st, v1, (f - 1) as nat, (g - 1) as nat);
                    }
                },
                None => {},
            }
        },
        StmtModel::For(x, c, b) => {
            lemma_fuel(*c, vars, f, g);
            match eval_spec(*c, vars, f) {
                Some((d, v1)) => match for_items(d) {
                    Some(items) => lemma_fuel_for(x, items, *b, v1, f, g),
                    None => {},
                },
                None => {},
            }
        },
        StmtModel::Match(x, cases) => lemma_fuel_match(x, cases, vars, f, g),
        StmtModel::IndexFixed(s, _) => lemma_fuel(*s, vars, f, g),
        StmtModel::EnumVariant(_, s) => lemma_fuel(*s, vars, f, g),
        StmtModel::Assign(_, s) => lemma_fuel(*s, vars, f, g),
        _ => {},
    }
}

proof fn lemma_fuel_for(x: usize, items: Seq<DataModel>, b: StmtModel, vars: Seq<DataModel>, f: nat, g: nat)
    requires
        f <= g,
        for_spec(x, items, b, vars, f) is Some,
    ensures
        for_spec(x, items, b, vars, g) == for_spec(x, items, b, vars, f),
    decreases f, b, items.len(),
{
    if items.len() > 0 && x < vars.len() {
        let v0 = vars.update(x as int, items[0]);
        lemma_fuel(b, v0, f, g);
        match eval_spec(b, v0, f) {
            Some((r, v1)) => {
                if matches_data(r) is None {
                    lemma_fuel_for(x, items.drop_first(), b, v1, f, g);
                }
            },
            None => {},
        }
    }
}

proof fn lemma_fuel_match(x: usize, cases: Seq<(StmtModel, StmtModel)>, vars: Seq<DataModel>, f: nat, g: nat)
    requires
        f <= g,
        match_spec(x, cases, vars, f) is Some,
    ensures
        match_spec(x, cases, vars, g) == match_spec(x, cases, vars, f),
    decreases f, cases, 0nat,
{
    if cases.len() > 0 {
        assert(decreases_to!(cases => cases[0]));
        lemma_fuel(cases[0].0, vars, f, g);
        match eval_spec(cases[0].0, vars, f) {
            Some((c, v1)) => match matches_data(c) {
                Some(m) => {
                    if x < v1.len() && eval_spec(cases[0].1, v1.update(x as int, m), f) is Some {
                        lemma_fuel(cases[0].1, v1.update(x as int, m), f, g);
                    }
                },
                None => lemma_fuel_match(x, cases.drop_first(), v1, f, g),
            },
            None => {},
        }
    }
}

proof fn lemma_fuel_all(s: Seq<StmtModel>, vars: Seq<DataModel>, f: nat, g: nat)
    requires
        f <= g,
        evals_spec(s, vars, f) is Some,
    ensures
        evals_spec(s, vars, g) == evals_spec(s, vars, f),
    decreases f, s, 0nat,
{
    if s.len() > 0 {
        lemma_fuel_all(s.drop_last(), vars, f, g);
        match evals_spec(s.drop_last(), vars, f) {
            Some((xs, v1)) => lemma_fuel(s.last(), v1, f, g),
            None => {},
        }
    }
}

/// A statement that finishes within some number of loop rounds gives the
/// same value and the same variables with any larger number: the bound only
/// decides whether running finishes, never what it gives.
pub proof fn law_more_fuel(st: StmtModel, vars: Seq<DataModel>, f: nat, g: nat)
    requires
        f <= g,
        eval_spec(st, vars, f) is Some,
    ensures
        eval_spec(st, vars, g) == eval_spec(st, vars, f),
{
    lemma_fuel(st, vars, f, g);
}

/// The first case of a `match` whose condition's value matches: its index,
/// what it matched as, and the variables right before its action runs;
/// `None` where no case matches or a condition fails.
pub open spec fn matched_case(x: usize, cases: Seq<(StmtModel, StmtModel)>, vars: Seq<DataModel>, fuel: nat) -> Option<(int, DataModel, Seq<DataModel>)>
    decreases cases.len(),
{
    if cases.len() == 0 {
        None
    } else {
        match eval_spec(cases[0].0, vars, fuel) {
            Some((c, v1)) => match matches_data(c) {
                Some(m) => Some((0, m, v1)),
                None => match matched_case(x, cases.drop_first(), v1, fuel) {
                    Some((k, m, v)) => Some((k + 1, m, v)),
                    None => None,
                },
            },
            None => None,
        }
    }
}

/// A `match` runs only the action of the first case whose condition
/// matches, with what it matched as in the variable, and the variable has
/// its value from before the action again afterwards; where no case
/// matches, it gives an empty tuple.
pub proof fn law_match_restores(x: usize, cases: Seq<(StmtModel, StmtModel)>, vars: Seq<DataModel>, fuel: nat)
    requires
        match_spec(x, cases, vars, fuel) is Some,
    ensures
        match matched_case(x, cases, vars, fuel) {
            Some((k, m, v1)) => 0 <= k < cases.len() && x < v1.len() && match eval_spec(cases[k].1, v1.update(x as int, m), fuel) {
                Some((r, v3)) => match_spec(x, cases, vars, fuel) == Some((r, v3.update(x as int, v1[x as int])))
                    && v3.update(x as int, v1[x as int])[x as int] == v1[x as int],
                None => false,
            },
            None => match match_spec(x, cases, vars, fuel) {
                Some((r, v)) => r == unit(),
                None => false,
            },
        },
    decreases cases.len(),
{
    if cases.len() > 0 {
        match eval_spec(cases[0].0, vars, fuel) {
            Some((c, v1)) => match matches_data(c) {
                Some(m) => {},
                None => {
                    law_match_restores(x, cases.drop_first(), v1, fuel);
                    match matched_case(x, cases.drop_first(), v1, fuel) {
                        Some((k, m2, v)) => {
                            assert(cases.drop_first()[k] == cases[k + 1]);
                        },
                        None => {},
                    }
                },
            },
            None => {},
        }
    }
}


/// `for x in d { b }` over a value `d`.
pub open spec fn for_over(x: usize, d: DataModel, b: StmtModel) -> StmtModel {
    StmtModel::For(x, Box::new(StmtModel::Value(d)), Box::new(b))
}

/// A `for` over a tuple or a list visits its elements first to last: over
/// no elements it gives an empty tuple and changes nothing; otherwise the
/// first round runs the body with the first element in the variable, and
/// gives what the body's value matches as when it matches, or else goes on
/// with the remaining elements from the variables the round left. A list
/// is gone through like a tuple with the same elements.
pub proof fn law_for_visits_in_order(x: usize, t: crate::lang::type_model::TypeModel, v: Seq<DataModel>, b: StmtModel, vars: Seq<DataModel>, fuel: nat)
    ensures
        eval_spec(for_over(x, DataModel::List(t, v), b), vars, fuel) == eval_spec(for_over(x, DataModel::Tuple(v), b), vars, fuel),
        v.len() == 0 ==> eval_spec(for_over(x, DataModel::Tuple(v), b), vars, fuel) == Some((unit(), vars)),
        v.len() > 0 && x < vars.len() ==> eval_spec(for_over(x, DataModel::Tuple(v), b), vars, fuel) == match eval_spec(b, vars.update(x as int, v[0]), fuel) {
            Some((r, v2)) => match matches_data(r) {
                Some(y) => Some((y, v2)),
                None => eval_spec(for_over(x, DataModel::Tuple(v.drop_first()), b), v2, fuel),
            },
            None => None,
        },
{
    assert(eval_spec(StmtModel::Value(DataModel::List(t, v)), vars, fuel) == Some((DataModel::List(t, v), vars)));
    assert(eval_spec(StmtModel::Value(DataModel::Tuple(v)), vars, fuel) == Some((DataModel::Tuple(v), vars)));
    assert(for_items(DataModel::List(t, v)) == Some(v));
    assert(for_items(DataModel::Tuple(v)) == Some(v));
    assert(eval_spec(for_over(x, DataModel::List(t, v), b), vars, fuel) == for_spec(x, v, b, vars, fuel));
    lemma_for_over_tuple(x, v, b, vars, fuel);
    if v.len() > 0 && x < vars.len() {
        match eval_spec(b, vars.update(x as int, v[0]), fuel) {
            Some((r, v2)) => lemma_for_over_tuple(x, v.drop_first(), b, v2, fuel),
            None => {},
        }
    }
}

proof fn lemma_for_over_tuple(x: usize, w: Seq<DataModel>, b: StmtModel, vars: Seq<DataModel>, fuel: nat)
    ensures
        eval_spec(for_over(x, DataModel::Tuple(w), b), vars, fuel) == for_spec(x, w, b, vars, fuel),
{
    assert(eval_spec(StmtModel::Value(DataModel::Tuple(w)), vars, fuel) == Some((DataModel::Tuple(w), vars)));
    assert(for_items(DataModel::Tuple(w)) == Some(w));
}

/// A `for` over an integer `n` goes through 0, 1, ..., n - 1 (nothing when
/// `n` is not positive), as over a tuple of those integers in that order.
pub proof fn law_for_over_int(x: usize, n: isize, b: StmtModel, vars: Seq<DataModel>, fuel: nat)
    ensures
        eval_spec(for_over(x, DataModel::Int(n), b), vars, fuel)
            == eval_spec(for_over(x, DataModel::Tuple(Seq::new(if n > 0 { n as nat } else { 0 }, |k: int| DataModel::Int(k as isize))), b), vars, fuel),
{
    let items = Seq::new(if n > 0 { n as nat } else { 0 }, |k: int| DataModel::Int(k as isize));
    assert(eval_spec(StmtModel::Value(DataModel::Int(n)), vars, fuel) == Some((DataModel::Int(n), vars)));
    assert(eval_spec(StmtModel::Value(DataModel::Tuple(items)), vars, fuel) == Some((DataModel::Tuple(items), vars)));
    assert(for_items(DataModel::Int(n)) == Some(items));
    assert(eval_spec(for_over(x, DataModel::Int(n), b), vars, fuel) == for_spec(x, items, b, vars, fuel));
    assert(eval_spec(for_over(x, DataModel::Tuple(items), b), vars, fuel) == for_spec(x, items, b, vars, fuel));
}

/// A `for` over a string goes through its characters first to last, each
/// as a string of one character, as over a tuple of those strings.
pub proof fn law_for_over_string(x: usize, s: Seq<char>, b: StmtModel, vars: Seq<DataModel>, fuel: nat)
    ensures
        eval_spec(for_over(x, DataModel::String(s), b), vars, fuel)
            == eval_spec(for_over(x, DataModel::Tuple(Seq::new(s.len(), |k: int| DataModel::String(seq![s[k]]))), b), vars, fuel),
{
    let items = Seq::new(s.len(), |k: int| DataModel::String(seq![s[k]]));
    assert(eval_spec(StmtModel::Value(DataModel::String(s)), vars, fuel) == Some((DataModel::String(s), vars)));
    assert(eval_spec(StmtModel::Value(DataModel::Tuple(items)), vars, fuel) == Some((DataModel::Tuple(items), vars)));
    assert(for_items(DataModel::String(s)) == Some(items));
    assert(eval_spec(for_over(x, DataModel::String(s), b), vars, fuel) == for_spec(x, items, b, vars, fuel));
    assert(eval_spec(for_over(x, DataModel::Tuple(items), b), vars, fuel) == for_spec(x, items, b, vars, fuel));
}


/// Running statements that only give values changes no variable and gives
/// the values in order; a block gives its last statement's value, or an
/// empty tuple when it has none; an `if` runs its first branch on `true`
/// and its second (or gives an empty tuple) on `false`; a variable gives
/// its value, or a reference to it; writing to a variable changes that
/// variable alone; a fixed index takes the element at that position.
pub proof fn law_eval_basics(a: DataModel, b: DataModel, t: StmtModel, e: StmtModel, i: usize, vars: Seq<DataModel>, fuel: nat)
    ensures
        eval_spec(StmtModel::Tuple(seq![StmtModel::Value(a), StmtModel::Value(b)]), vars, fuel) == Some((DataModel::Tuple(seq![a, b]), vars)),
        eval_spec(StmtModel::Block(seq![StmtModel::Value(a), StmtModel::Value(b)]), vars, fuel) == Some((b, vars)),
        eval_spec(StmtModel::Block(Seq::empty()), vars, fuel) == Some((unit(), vars)),
        eval_spec(StmtModel::If(Box::new(StmtModel::Value(DataModel::Bool(true))), Box::new(t), Some(Box::new(e))), vars, fuel) == eval_spec(t, vars, fuel),
        eval_spec(StmtModel::If(Box::new(StmtModel::Value(DataModel::Bool(false))), Box::new(t), Some(Box::new(e))), vars, fuel) == eval_spec(e, vars, fuel),
        eval_spec(StmtModel::If(Box::new(StmtModel::Value(DataModel::Bool(false))), Box::new(t), None), vars, fuel) == Some((unit(), vars)),
        i < vars.len() ==> eval_spec(StmtModel::Variable(i, false), vars, fuel) == Some((vars[i as int], vars)),
        i < vars.len() ==> eval_spec(StmtModel::Variable(i, true), vars, fuel) == Some((DataModel::Reference(Box::new(vars[i as int])), vars)),
        i < vars.len() ==> eval_spec(StmtModel::Assign(i, Box::new(StmtModel::Value(a))), vars, fuel) == Some((unit(), vars.update(i as int, a))),
        eval_spec(StmtModel::IndexFixed(Box::new(StmtModel::Value(DataModel::Tuple(seq![a, b]))), 1), vars, fuel) == Some((b, vars)),
        eval_spec(StmtModel::IndexFixed(Box::new(StmtModel::Value(DataModel::Tuple(seq![a, b]))), 0), vars, fuel) == Some((a, vars)),
{
    let two = seq![StmtModel::Value(a), StmtModel::Value(b)];
    assert(two.drop_last() =~= seq![StmtModel::Value(a)]);
    assert(seq![StmtModel::Value(a)].drop_last() =~= Seq::<StmtModel>::empty());
    assert(evals_spec(Seq::<StmtModel>::empty(), vars, fuel) == Some((Seq::<DataModel>::empty(), vars)));
    assert(eval_spec(StmtModel::Value(a), vars, fuel) == Some((a, vars)));
    assert(eval_spec(StmtModel::Value(b), vars, fuel) == Some((b, vars)));
    assert(eval_spec(StmtModel::Value(DataModel::Bool(true)), vars, fuel) == Some((DataModel::Bool(true), vars)));
    assert(eval_spec(StmtModel::Value(DataModel::Bool(false)), vars, fuel) == Some((DataModel::Bool(false), vars)));
    assert(evals_spec(seq![StmtModel::Value(a)], vars, fuel) == Some((seq![a], vars))) by {
        assert(seq![StmtModel::Value(a)].last() == StmtModel::Value(a));
        assert(Seq::<DataModel>::empty().push(a) =~= seq![a]);
    }
    assert(evals_spec(two, vars, fuel) == Some((seq![a, b], vars))) by {
        assert(two.last() == StmtModel::Value(b));
        assert(seq![a].push(b) =~= seq![a, b]);
    }
    assert(eval_spec(StmtModel::Value(DataModel::Tuple(seq![a, b])), vars, fuel) == Some((DataModel::Tuple(seq![a, b]), vars)));
}

} // verus!
