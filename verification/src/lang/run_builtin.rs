//! Running the built-in functions that only compute: what each gives on the
//! values of its arguments.
use vstd::prelude::*;
use vstd::utf8::encode_utf8;
use crate::lang::builtins::BuiltinFunction;
use crate::lang::builtin_values::{
    contains, ends_with, index_of, index_of_spec, int_div, int_mod, occurs_at, replace, replace_spec,
    starts_with, string_concat, string_len, substring, substring_count, substring_spec, substring_start,
    trunc_div, trunc_rem, regex, regex_find, checked_int_pow, int_pow_spec,
};
use crate::lang::val_data::{DataModel, VDataEnum, datas_model, group_data_lemmas};
use crate::lang::val_type::{VSingleType, clone_fns};
use crate::lang::type_model::{SingleTypeModel, TypeModel};
use crate::lang::global_info::EV_ERR;
use crate::parse::parse::{trim, trim_end, trim_string};
use crate::text::{string_chars, chars_to_string};

verus! {

broadcast use {crate::lang::type_model::group_model_lemmas, group_data_lemmas};

/// The empty tuple, which stands for "nothing".
pub open spec fn unit() -> DataModel {
    DataModel::Tuple(Seq::empty())
}

/// A tuple of one value, which stands for "something".
pub open spec fn one_of(x: DataModel) -> DataModel {
    DataModel::Tuple(seq![x])
}

/// An integer result, where it fits.
pub open spec fn int_result(x: int) -> Option<DataModel> {
    if isize::MIN <= x <= isize::MAX {
        Some(DataModel::Int(x as isize))
    } else {
        None
    }
}

/// The two integer arguments of a call.
pub open spec fn two_ints(a: Seq<DataModel>) -> Option<(isize, isize)> {
    if a.len() == 2 {
        match (a[0], a[1]) {
            (DataModel::Int(x), DataModel::Int(y)) => Some((x, y)),
            _ => None,
        }
    } else {
        None
    }
}

/// The two boolean arguments of a call.
pub open spec fn two_bools(a: Seq<DataModel>) -> Option<(bool, bool)> {
    if a.len() == 2 {
        match (a[0], a[1]) {
            (DataModel::Bool(x), DataModel::Bool(y)) => Some((x, y)),
            _ => None,
        }
    } else {
        None
    }
}

/// The two string arguments of a call.
pub open spec fn two_strings(a: Seq<DataModel>) -> Option<(Seq<char>, Seq<char>)> {
    if a.len() == 2 {
        match (a[0], a[1]) {
            (DataModel::String(x), DataModel::String(y)) => Some((x, y)),
            _ => None,
        }
    } else {
        None
    }
}

/// The single argument of a call.
pub open spec fn only(a: Seq<DataModel>) -> Option<DataModel> {
    if a.len() == 1 {
        Some(a[0])
    } else {
        None
    }
}

/// The part `get` finds at `i`: a character of a string, an element of a
/// tuple or list; through a reference or an enum variant to what it holds.
pub open spec fn get_spec(c: DataModel, i: int) -> Option<DataModel>
    decreases c,
{
    match c {
        DataModel::String(s) => if 0 <= i < s.len() { Some(DataModel::String(seq![s[i]])) } else { None },
        DataModel::Tuple(v) => if 0 <= i < v.len() { Some(v[i]) } else { None },
        DataModel::List(_, v) => if 0 <= i < v.len() { Some(v[i]) } else { None },
        DataModel::Reference(r) => get_spec(*r, i),
        DataModel::EnumVariant(_, v) => get_spec(*v, i),
        _ => None,
    }
}

proof fn lemma_get_negative(c: DataModel, i: int)
    requires
        i < 0,
    ensures
        get_spec(c, i) is None,
    decreases c,
{
    match c {
        DataModel::Reference(r) => lemma_get_negative(*r, i),
        DataModel::EnumVariant(_, v) => lemma_get_negative(*v, i),
        _ => {},
    }
}

/// What a value matches as: the first element of a non-empty tuple, `true`
/// itself, any value that is no tuple, boolean or enum variant itself; an
/// empty tuple, `false` and an enum variant match nothing.
pub open spec fn matches_data(d: DataModel) -> Option<DataModel> {
    match d {
        DataModel::Tuple(v) => if v.len() > 0 { Some(v[0]) } else { None },
        DataModel::Bool(b) => if b { Some(d) } else { None },
        DataModel::EnumVariant(_, _) => None,
        _ => Some(d),
    }
}

/// The result of a comparison of two integers.
pub open spec fn compare_spec(f: BuiltinFunction, x: int, y: int) -> bool {
    match f {
        BuiltinFunction::Gt => x > y,
        BuiltinFunction::Lt => x < y,
        BuiltinFunction::Gtoe => x >= y,
        _ => x <= y,
    }
}

/// What `substring` gives: the text from `left` on, up to `end` when there
/// is one; `None` where the call is malformed or would fail.
pub open spec fn substring_call(a: Seq<DataModel>) -> Option<DataModel> {
    if a.len() == 2 || a.len() == 3 {
        match (a[0], a[1]) {
            (DataModel::String(s), DataModel::Int(left)) => {
                let end: Option<Option<isize>> = if a.len() == 3 {
                    match a[2] {
                        DataModel::Int(e) => Some(Some(e)),
                        _ => None,
                    }
                } else {
                    Some(None)
                };
                let bytes = encode_utf8(s).len() as int;
                match end {
                    Some(e) => if left == isize::MIN || (left < 0 && bytes == 0) || e == Some(isize::MIN) {
                        None
                    } else {
                        let start = substring_start(bytes, left as int);
                        let count = substring_count(start, match e { Some(x) => Some(x as int), None => None });
                        Some(DataModel::String(substring_spec(s, start, count)))
                    },
                    None => None,
                }
            },
            _ => None,
        }
    } else {
        None
    }
}

/// The bits of a double that is not a number.
pub open spec fn is_nan_bits(b: u64) -> bool {
    (b & 0x7ff0_0000_0000_0000u64) == 0x7ff0_0000_0000_0000u64 && (b & 0x000f_ffff_ffff_ffffu64) != 0
}

/// Equality of two doubles, given by their bits: a NaN equals nothing, the
/// two zeros are equal, and other doubles are equal when their bits are.
pub open spec fn float_eq(a: u64, b: u64) -> bool {
    !is_nan_bits(a) && !is_nan_bits(b) && (a == b || ((a & 0x7fff_ffff_ffff_ffffu64) == 0 && (b & 0x7fff_ffff_ffff_ffffu64) == 0))
}

/// Whether two values are equal: a reference compares as the value it
/// points to; tuples and lists compare element by element (a list's type
/// aside); enum variants by id and value; functions and threads equal
/// nothing.
pub open spec fn data_eq(a: DataModel, b: DataModel) -> bool
    decreases a, b,
{
    match (a, b) {
        (DataModel::Reference(x), DataModel::Reference(y)) => data_eq(*x, *y),
        (DataModel::Reference(x), _) => data_eq(*x, b),
        (_, DataModel::Reference(y)) => data_eq(a, *y),
        (DataModel::Bool(x), DataModel::Bool(y)) => x == y,
        (DataModel::Int(x), DataModel::Int(y)) => x == y,
        (DataModel::Float(x), DataModel::Float(y)) => float_eq(x, y),
        (DataModel::String(x), DataModel::String(y)) => x == y,
        (DataModel::Tuple(x), DataModel::Tuple(y)) => datas_eq(x, y),
        (DataModel::List(_, x), DataModel::List(_, y)) => datas_eq(x, y),
        (DataModel::EnumVariant(e, x), DataModel::EnumVariant(f, y)) => e == f && data_eq(*x, *y),
        _ => false,
    }
}

/// Two sequences of values of the same length, equal at each position.
pub open spec fn datas_eq(x: Seq<DataModel>, y: Seq<DataModel>) -> bool
    decreases x, y,
{
    if x.len() != y.len() {
        false
    } else if x.len() == 0 {
        true
    } else {
        datas_eq(x.drop_last(), y.drop_last()) && data_eq(x.last(), y.last())
    }
}

/// The value the `regex` built-in gives: a list of strings with the
/// matches, or the error message as an `Err` enum variant.
pub open spec fn regex_value(r: Result<Seq<Seq<char>>, Seq<char>>) -> DataModel {
    match r {
        Ok(v) => DataModel::List(TypeModel { types: seq![SingleTypeModel::String] }, v.map_values(|x: Seq<char>| DataModel::String(x))),
        Err(e) => DataModel::EnumVariant(EV_ERR, Box::new(DataModel::String(e))),
    }
}

/// The value of an ASCII digit.
pub open spec fn digit_value(c: char) -> int {
    (c as u32) - ('0' as u32)
}

/// The number the ASCII digits `d` stand for, in decimal.
pub open spec fn digits_value(d: Seq<char>) -> int
    decreases d.len(),
{
    if d.len() == 0 {
        0
    } else {
        digits_value(d.drop_last()) * 10 + digit_value(d.last())
    }
}

/// All of `d` are ASCII digits, and there is at least one.
pub open spec fn all_digits(d: Seq<char>) -> bool {
    d.len() > 0 && forall|i: int| 0 <= i < d.len() ==> '0' <= #[trigger] d[i] <= '9'
}

/// What parsing a text as an integer gives: an optional `+` or `-`, then
/// one or more ASCII digits, and nothing else; `None` for any other text.
/// Whether the number fits is decided by the caller.
pub open spec fn parse_int_spec(s: Seq<char>) -> Option<int> {
    if s.len() > 0 && s[0] == '-' {
        if all_digits(s.skip(1)) { Some(-digits_value(s.skip(1))) } else { None }
    } else if s.len() > 0 && s[0] == '+' {
        if all_digits(s.skip(1)) { Some(digits_value(s.skip(1))) } else { None }
    } else if all_digits(s) {
        Some(digits_value(s))
    } else {
        None
    }
}

/// What a built-in function gives on argument values. `None` for the
/// built-ins this does not compute: those that do input or output (`print`,
/// `println`, `debug`, `read_line`, `exit`, `sleep`, the file and command
/// built-ins), compute with floats (`parse_float`), write values as text
/// (`to_string`, `format`), run functions or threads (`run`, `thread`,
/// `await`), decode bytes (`bytes_to_string`), or change a list through a
/// reference (`push`, `insert`, `pop`, `remove`, which `eval` runs on a
/// variable); and `None` for arguments on which a function fails: of other
/// kinds than it takes, an integer result that does not fit, a division by
/// zero, a failed assumption.
pub open spec fn builtin_spec(f: BuiltinFunction, a: Seq<DataModel>) -> Option<DataModel> {
    match f {
        BuiltinFunction::NoEnum => match only(a) {
            Some(DataModel::EnumVariant(_, v)) => Some(*v),
            Some(d) => Some(d),
            None => None,
        },
        BuiltinFunction::Matches => match only(a) {
            Some(d) => match matches_data(d) {
                Some(x) => Some(one_of(x)),
                None => Some(unit()),
            },
            None => None,
        },
        BuiltinFunction::Clone => match only(a) {
            Some(DataModel::Reference(r)) => Some(*r),
            _ => None,
        },
        BuiltinFunction::Not => match only(a) {
            Some(DataModel::Bool(b)) => Some(DataModel::Bool(!b)),
            _ => None,
        },
        BuiltinFunction::And => match two_bools(a) {
            Some((x, y)) => Some(DataModel::Bool(x && y)),
            None => None,
        },
        BuiltinFunction::Or => match two_bools(a) {
            Some((x, y)) => Some(DataModel::Bool(x || y)),
            None => None,
        },
        BuiltinFunction::Add => match two_strings(a) {
            Some((x, y)) => Some(DataModel::String(x + y)),
            None => match two_ints(a) {
                Some((x, y)) => int_result(x + y),
                None => None,
            },
        },
        BuiltinFunction::Sub => match two_ints(a) {
            Some((x, y)) => int_result(x - y),
            None => None,
        },
        BuiltinFunction::Mul => match two_ints(a) {
            Some((x, y)) => int_result(x * y),
            None => None,
        },
        BuiltinFunction::Div => match two_ints(a) {
            Some((x, y)) => if y == 0 || (x == isize::MIN && y == -1) { None } else { int_result(trunc_div(x as int, y as int)) },
            None => None,
        },
        BuiltinFunction::Mod => match two_ints(a) {
            Some((x, y)) => if y == 0 || (x == isize::MIN && y == -1) { None } else { int_result(trunc_rem(x as int, y as int)) },
            None => None,
        },
        BuiltinFunction::Pow => match two_ints(a) {
            Some((x, y)) => int_result(int_pow_spec(x as int, y)),
            None => None,
        },
        BuiltinFunction::Gt | BuiltinFunction::Lt | BuiltinFunction::Gtoe | BuiltinFunction::Ltoe => match two_ints(a) {
            Some((x, y)) => Some(DataModel::Bool(compare_spec(f, x as int, y as int))),
            None => None,
        },
        BuiltinFunction::Min => match two_ints(a) {
            Some((x, y)) => Some(DataModel::Int(if x <= y { x } else { y })),
            None => None,
        },
        BuiltinFunction::Max => match two_ints(a) {
            Some((x, y)) => Some(DataModel::Int(if x >= y { x } else { y })),
            None => None,
        },
        BuiltinFunction::Get => if a.len() == 2 {
            match a[1] {
                DataModel::Int(i) => match get_spec(a[0], i as int) {
                    Some(x) => Some(one_of(x)),
                    None => Some(unit()),
                },
                _ => None,
            }
        } else {
            None
        },
        BuiltinFunction::Len => match only(a) {
            Some(DataModel::String(s)) => int_result(encode_utf8(s).len() as int),
            Some(DataModel::Tuple(v)) => int_result(v.len() as int),
            Some(DataModel::List(_, v)) => int_result(v.len() as int),
            _ => None,
        },
        BuiltinFunction::Contains => match two_strings(a) {
            Some((s, p)) => Some(DataModel::Bool(exists|k: int| #[trigger] occurs_at(s, p, k))),
            None => None,
        },
        BuiltinFunction::StartsWith => match two_strings(a) {
            Some((s, p)) => Some(DataModel::Bool(occurs_at(s, p, 0))),
            None => None,
        },
        BuiltinFunction::EndsWith => match two_strings(a) {
            Some((s, p)) => Some(DataModel::Bool(p.len() <= s.len() && occurs_at(s, p, s.len() - p.len()))),
            None => None,
        },
        BuiltinFunction::IndexOf => match two_strings(a) {
            Some((s, p)) => match index_of_spec(s, p) {
                Some(k) => int_result(k),
                None => Some(unit()),
            },
            None => None,
        },
        BuiltinFunction::Trim => match only(a) {
            Some(DataModel::String(s)) => Some(DataModel::String(trim(s))),
            _ => None,
        },
        BuiltinFunction::Substring => substring_call(a),
        BuiltinFunction::Regex => match two_strings(a) {
            Some((t, p)) => Some(regex_value(regex_find(t, p))),
            None => None,
        },
        BuiltinFunction::Eq => if a.len() == 2 { Some(DataModel::Bool(data_eq(a[0], a[1]))) } else { None },
        BuiltinFunction::Ne => if a.len() == 2 { Some(DataModel::Bool(!data_eq(a[0], a[1]))) } else { None },
        BuiltinFunction::Assume1 => if a.len() == 1 || a.len() == 2 {
            match a[0] {
                DataModel::Tuple(v) => if v.len() > 0 { Some(v[0]) } else { None },
                d => Some(d),
            }
        } else {
            None
        },
        BuiltinFunction::AssumeNoEnum => if a.len() == 1 || a.len() == 2 {
            match a[0] {
                DataModel::EnumVariant(_, _) => None,
                d => Some(d),
            }
        } else {
            None
        },
        BuiltinFunction::ParseInt => match only(a) {
            Some(DataModel::String(s)) => match parse_int_spec(s) {
                Some(n) => int_result(n),
                None => Some(unit()),
            },
            _ => None,
        },
        BuiltinFunction::StringToBytes => match only(a) {
            Some(DataModel::String(s)) => Some(DataModel::List(
                TypeModel { types: seq![SingleTypeModel::Int] },
                encode_utf8(s).map_values(|b: u8| DataModel::Int(b as isize)),
            )),
            _ => None,
        },
        BuiltinFunction::Replace => if a.len() == 3 {
            match (a[0], a[1], a[2]) {
                (DataModel::String(s), DataModel::String(p), DataModel::String(c)) => Some(DataModel::String(replace_spec(s, p, c))),
                _ => None,
            }
        } else {
            None
        },
        _ => None,
    }
}

fn clone_datas(v: &Vec<VDataEnum>) -> (r: Vec<VDataEnum>)
    ensures
        datas_model(r@) == datas_model(v@),
    decreases v,
{
    let mut r: Vec<VDataEnum> = Vec::new();
    let mut i: usize = 0;
    while i < v.len()
        invariant
            i <= v@.len(),
            r@.len() == i,
            forall|j: int| 0 <= j < i ==> (#[trigger] r@[j]).model() == v@[j].model(),
        decreases v@.len() - i,
    {
        proof { assert(decreases_to!(v@ => v@[i as int])); }
        r.push(v[i].clone_data());
        i += 1;
    }
    assert(datas_model(r@) =~= datas_model(v@));
    r
}

impl VDataEnum {
    /// A copy of this value.
    pub fn clone_data(&self) -> (r: VDataEnum)
        ensures
            r.model() == self.model(),
        decreases self,
    {
        match self {
            VDataEnum::Bool(b) => VDataEnum::Bool(*b),
            VDataEnum::Int(i) => VDataEnum::Int(*i),
            VDataEnum::Float(f) => VDataEnum::Float(*f),
            VDataEnum::String(s) => VDataEnum::String(s.clone()),
            VDataEnum::Tuple(v) => VDataEnum::Tuple(clone_datas(v)),
            VDataEnum::List(t, v) => VDataEnum::List(t.deep_clone(), clone_datas(v)),
            VDataEnum::Function(f) => VDataEnum::Function(clone_fns(f)),
            VDataEnum::Thread(t) => VDataEnum::Thread(t.deep_clone()),
            VDataEnum::Reference(r) => VDataEnum::Reference(Box::new(r.clone_data())),
            VDataEnum::EnumVariant(e, v) => VDataEnum::EnumVariant(*e, Box::new(v.clone_data())),
        }
    }

    /// The part at `i`, as the `get` built-in finds it.
    pub fn get(&self, i: usize) -> (r: Option<VDataEnum>)
        ensures
            match get_spec(self.model(), i as int) {
                Some(x) => r matches Some(y) && y.model() == x,
                None => r is None,
            },
        decreases self,
    {
        match self {
            VDataEnum::String(s) => {
                let cs = string_chars(s.as_str());
                if i < cs.len() {
                    let r = chars_to_string(&cs, i, i + 1);
                    assert(cs@.subrange(i as int, i + 1) =~= seq![s@[i as int]]);
                    Some(VDataEnum::String(r))
                } else {
                    None
                }
            },
            VDataEnum::Tuple(v) => {
                assert(datas_model(v@).len() == v@.len());
                if i < v.len() {
                    assert(datas_model(v@)[i as int] == v@[i as int].model());
                    Some(v[i].clone_data())
                } else {
                    None
                }
            },
            VDataEnum::List(_, v) => {
                assert(datas_model(v@).len() == v@.len());
                if i < v.len() {
                    assert(datas_model(v@)[i as int] == v@[i as int].model());
                    Some(v[i].clone_data())
                } else {
                    None
                }
            },
            VDataEnum::Reference(r) => r.get(i),
            VDataEnum::EnumVariant(_, v) => v.get(i),
            _ => None,
        }
    }
}

fn two_ints_x(args: &Vec<VDataEnum>) -> (r: Option<(isize, isize)>)
    ensures
        r == two_ints(datas_model(args@)),
{
    if args.len() == 2 {
        match (&args[0], &args[1]) {
            (VDataEnum::Int(x), VDataEnum::Int(y)) => Some((*x, *y)),
            _ => None,
        }
    } else {
        None
    }
}

fn two_bools_x(args: &Vec<VDataEnum>) -> (r: Option<(bool, bool)>)
    ensures
        r == two_bools(datas_model(args@)),
{
    if args.len() == 2 {
        match (&args[0], &args[1]) {
            (VDataEnum::Bool(x), VDataEnum::Bool(y)) => Some((*x, *y)),
            _ => None,
        }
    } else {
        None
    }
}

fn two_strings_x(args: &Vec<VDataEnum>) -> (r: Option<(&String, &String)>)
    ensures
        match two_strings(datas_model(args@)) {
            Some((x, y)) => r matches Some((a, b)) && a@ == x && b@ == y,
            None => r is None,
        },
{
    if args.len() == 2 {
        match (&args[0], &args[1]) {
            (VDataEnum::String(x), VDataEnum::String(y)) => Some((x, y)),
            _ => None,
        }
    } else {
        None
    }
}

fn int_value(x: Option<isize>) -> (r: Option<VDataEnum>)
    ensures
        match x {
            Some(v) => r matches Some(d) && d.model() == DataModel::Int(v),
            None => r is None,
        },
{
    match x {
        Some(v) => Some(VDataEnum::Int(v)),
        None => None,
    }
}

fn unit_x() -> (r: VDataEnum)
    ensures
        r.model() == unit(),
{
    let r = VDataEnum::Tuple(Vec::new());
    assert(datas_model(Seq::<VDataEnum>::empty()) =~= Seq::<DataModel>::empty());
    r
}

fn one_of_x(x: VDataEnum) -> (r: VDataEnum)
    ensures
        r.model() == one_of(x.model()),
{
    let ghost m = x.model();
    let r = VDataEnum::Tuple(vec![x]);
    assert(datas_model(r->Tuple_0@) =~= seq![m]);
    r
}

/// The integer built-ins on two integers.
fn run_on_ints(f: &BuiltinFunction, x: isize, y: isize) -> (r: Option<VDataEnum>)
    requires
        matches!(*f, BuiltinFunction::Add | BuiltinFunction::Sub | BuiltinFunction::Mul | BuiltinFunction::Div
            | BuiltinFunction::Mod | BuiltinFunction::Pow | BuiltinFunction::Gt | BuiltinFunction::Lt | BuiltinFunction::Gtoe
            | BuiltinFunction::Ltoe | BuiltinFunction::Min | BuiltinFunction::Max),
    ensures
        match builtin_spec(*f, seq![DataModel::Int(x), DataModel::Int(y)]) {
            Some(v) => r matches Some(d) && d.model() == v,
            None => r is None,
        },
{
    let ghost a = seq![DataModel::Int(x), DataModel::Int(y)];
    assert(two_ints(a) == Some((x, y)));
    assert(two_strings(a) is None);
    match f {
        BuiltinFunction::Add => int_value(x.checked_add(y)),
        BuiltinFunction::Sub => int_value(x.checked_sub(y)),
        BuiltinFunction::Mul => int_value(x.checked_mul(y)),
        BuiltinFunction::Div => if y == 0 || (x == isize::MIN && y == -1) { None } else { Some(VDataEnum::Int(int_div(x, y))) },
        BuiltinFunction::Mod => if y == 0 || (x == isize::MIN && y == -1) { None } else { Some(VDataEnum::Int(int_mod(x, y))) },
        BuiltinFunction::Pow => int_value(checked_int_pow(x, y)),
        BuiltinFunction::Gt => Some(VDataEnum::Bool(x > y)),
        BuiltinFunction::Lt => Some(VDataEnum::Bool(x < y)),
        BuiltinFunction::Gtoe => Some(VDataEnum::Bool(x >= y)),
        BuiltinFunction::Ltoe => Some(VDataEnum::Bool(x <= y)),
        BuiltinFunction::Min => Some(VDataEnum::Int(if x <= y { x } else { y })),
        _ => Some(VDataEnum::Int(if x >= y { x } else { y })),
    }
}

/// The string built-ins on two strings.
fn run_on_strings(f: &BuiltinFunction, s: &String, p: &String) -> (r: Option<VDataEnum>)
    requires
        matches!(*f, BuiltinFunction::Add | BuiltinFunction::Contains | BuiltinFunction::StartsWith
            | BuiltinFunction::EndsWith | BuiltinFunction::IndexOf),
    ensures
        match builtin_spec(*f, seq![DataModel::String(s@), DataModel::String(p@)]) {
            Some(v) => r matches Some(d) && d.model() == v,
            None => r is None,
        },
{
    let ghost a = seq![DataModel::String(s@), DataModel::String(p@)];
    assert(two_strings(a) == Some((s@, p@)));
    match f {
        BuiltinFunction::Add => Some(VDataEnum::String(string_concat(s.as_str(), p.as_str()))),
        BuiltinFunction::Contains => Some(VDataEnum::Bool(contains(s.as_str(), p.as_str()))),
        BuiltinFunction::StartsWith => Some(VDataEnum::Bool(starts_with(s.as_str(), p.as_str()))),
        BuiltinFunction::EndsWith => Some(VDataEnum::Bool(ends_with(s.as_str(), p.as_str()))),
        _ => match index_of(s.as_str(), p.as_str()) {
            Some(k) => if k <= isize::MAX as usize { Some(VDataEnum::Int(k as isize)) } else { None },
            None => Some(unit_x()),
        },
    }
}

/// The `substring` built-in on its arguments.
fn run_substring(args: &Vec<VDataEnum>) -> (r: Option<VDataEnum>)
    ensures
        match substring_call(datas_model(args@)) {
            Some(v) => r matches Some(d) && d.model() == v,
            None => r is None,
        },
{
    let ghost a = datas_model(args@);
    if args.len() != 2 && args.len() != 3 {
        return None;
    }
    let (s, left) = match (&args[0], &args[1]) {
        (VDataEnum::String(s), VDataEnum::Int(left)) => (s, *left),
        _ => return None,
    };
    let end: Option<isize> = if args.len() == 3 {
        match &args[2] {
            VDataEnum::Int(e) => Some(*e),
            _ => return None,
        }
    } else {
        None
    };
    let bytes = string_len(s.as_str());
    let end_min = match end {
        Some(e) => e == isize::MIN,
        None => false,
    };
    if left == isize::MIN || (left < 0 && bytes == 0) || end_min {
        return None;
    }
    Some(VDataEnum::String(substring(s.as_str(), left, end)))
}

fn float_eq_x(a: u64, b: u64) -> (r: bool)
    ensures
        r == float_eq(a, b),
{
    let a_nan = (a & 0x7ff0_0000_0000_0000u64) == 0x7ff0_0000_0000_0000u64 && (a & 0x000f_ffff_ffff_ffffu64) != 0;
    let b_nan = (b & 0x7ff0_0000_0000_0000u64) == 0x7ff0_0000_0000_0000u64 && (b & 0x000f_ffff_ffff_ffffu64) != 0;
    !a_nan && !b_nan && (a == b || ((a & 0x7fff_ffff_ffff_ffffu64) == 0 && (b & 0x7fff_ffff_ffff_ffffu64) == 0))
}

fn datas_eq_x(x: &Vec<VDataEnum>, y: &Vec<VDataEnum>) -> (r: bool)
    ensures
        r == datas_eq(datas_model(x@), datas_model(y@)),
    decreases x, y,
{
    let ghost mx = datas_model(x@);
    let ghost my = datas_model(y@);
    if x.len() != y.len() {
        return false;
    }
    let mut i: usize = 0;
    assert(mx.take(0) =~= Seq::<DataModel>::empty());
    assert(my.take(0) =~= Seq::<DataModel>::empty());
    while i < x.len()
        invariant
            i <= x@.len(),
            x@.len() == y@.len(),
            mx == datas_model(x@),
            my == datas_model(y@),
            mx.len() == x@.len(),
            my.len() == y@.len(),
            datas_eq(mx.take(i as int), my.take(i as int)),
        decreases x@.len() - i,
    {
        proof {
            assert(decreases_to!(x@ => x@[i as int]));
            assert(mx.take(i + 1).drop_last() =~= mx.take(i as int));
            assert(my.take(i + 1).drop_last() =~= my.take(i as int));
            assert(mx[i as int] == x@[i as int].model());
            assert(my[i as int] == y@[i as int].model());
        }
        if !data_eq_x(&x[i], &y[i]) {
            proof {
                if datas_eq(mx, my) {
                    lemma_datas_eq_at(mx, my, i as int);
                }
            }
            return false;
        }
        i += 1;
    }
    assert(mx.take(i as int) =~= mx);
    assert(my.take(i as int) =~= my);
    true
}

proof fn lemma_datas_eq_at(x: Seq<DataModel>, y: Seq<DataModel>, i: int)
    requires
        datas_eq(x, y),
        0 <= i < x.len(),
    ensures
        data_eq(x[i], y[i]),
    decreases x.len(),
{
    if i < x.len() - 1 {
        lemma_datas_eq_at(x.drop_last(), y.drop_last(), i);
    }
}

/// Whether two values are equal, as [`data_eq`] says.
pub fn data_eq_x(a: &VDataEnum, b: &VDataEnum) -> (r: bool)
    ensures
        r == data_eq(a.model(), b.model()),
    decreases a, b,
{
    match (a, b) {
        (VDataEnum::Reference(x), VDataEnum::Reference(y)) => data_eq_x(x, y),
        (VDataEnum::Reference(x), _) => data_eq_x(x, b),
        (_, VDataEnum::Reference(y)) => data_eq_x(a, y),
        (VDataEnum::Bool(x), VDataEnum::Bool(y)) => *x == *y,
        (VDataEnum::Int(x), VDataEnum::Int(y)) => *x == *y,
        (VDataEnum::Float(x), VDataEnum::Float(y)) => float_eq_x(*x, *y),
        (VDataEnum::String(x), VDataEnum::String(y)) => crate::lang::builtins::str_eq(x.as_str(), y.as_str()),
        (VDataEnum::Tuple(x), VDataEnum::Tuple(y)) => datas_eq_x(x, y),
        (VDataEnum::List(_, x), VDataEnum::List(_, y)) => datas_eq_x(x, y),
        (VDataEnum::EnumVariant(e, x), VDataEnum::EnumVariant(f, y)) => *e == *f && data_eq_x(x, y),
        _ => false,
    }
}

/// The `regex` built-in on a text and a pattern.
fn run_regex(t: &String, p: &String) -> (r: VDataEnum)
    ensures
        r.model() == regex_value(regex_find(t@, p@)),
{
    let ts = t.as_str();
    let ps = p.as_str();
    assert(ts@ == t@ && ps@ == p@);
    match regex(ts, ps) {
        Ok(v) => {
            let ghost vm = v.deep_view();
            let mut out: Vec<VDataEnum> = Vec::new();
            let mut i: usize = 0;
            while i < v.len()
                invariant
                    i <= v@.len(),
                    vm == v.deep_view(),
                    vm.len() == v@.len(),
                    datas_model(out@) == vm.take(i as int).map_values(|x: Seq<char>| DataModel::String(x)),
                decreases v@.len() - i,
            {
                let ghost pre = datas_model(out@);
                assert(vm[i as int] == v@[i as int]@);
                let x = VDataEnum::String(v[i].clone());
                let ghost xm = x.model();
                out.push(x);
                assert(datas_model(out@) =~= pre.push(xm));
                assert(vm.take(i + 1).map_values(|x: Seq<char>| DataModel::String(x)) =~= vm.take(i as int).map_values(|x: Seq<char>| DataModel::String(x)).push(DataModel::String(vm[i as int])));
                i += 1;
            }
            assert(vm.take(i as int) =~= vm);
            let ty = VSingleType::String.to();
            VDataEnum::List(ty, out)
        },
        Err(e) => {
            let inner = VDataEnum::String(e);
            assert(inner.model() == DataModel::String(e@));
            VDataEnum::EnumVariant(EV_ERR, Box::new(inner))
        },
    }
}

proof fn lemma_digits_value_monotone(d: Seq<char>, k: int)
    requires
        all_digits(d),
        1 <= k <= d.len(),
    ensures
        digits_value(d.take(k)) <= digits_value(d),
        digits_value(d.take(k)) >= 0,
    decreases d.len() - k,
{
    if k < d.len() {
        lemma_digits_value_monotone(d, k + 1);
        assert(d.take(k + 1).drop_last() =~= d.take(k));
        assert('0' <= d[k] <= '9');
        assert(digits_value(d.take(k)) >= 0) by {
            lemma_digits_nonneg(d.take(k));
        }
    } else {
        assert(d.take(k) =~= d);
        lemma_digits_nonneg(d);
    }
}

pub proof fn lemma_digits_nonneg(d: Seq<char>)
    requires
        forall|i: int| 0 <= i < d.len() ==> '0' <= #[trigger] d[i] <= '9',
    ensures
        digits_value(d) >= 0,
    decreases d.len(),
{
    if d.len() > 0 {
        assert forall|i: int| 0 <= i < d.drop_last().len() implies '0' <= #[trigger] d.drop_last()[i] <= '9' by {
            assert(d.drop_last()[i] == d[i]);
        }
        lemma_digits_nonneg(d.drop_last());
        assert('0' <= d.last() <= '9');
    }
}

/// The `parse_int` built-in on a text: the integer it writes, where it
/// writes one that fits; `Err(true)` where it writes no integer, and
/// `Err(false)` where the integer does not fit.
pub(crate) fn parse_int(s: &String) -> (r: Result<isize, bool>)
    ensures
        match parse_int_spec(s@) {
            Some(n) => if isize::MIN <= n <= isize::MAX { r == Ok::<isize, bool>(n as isize) } else { r == Err::<isize, bool>(false) },
            None => r == Err::<isize, bool>(true),
        },
{
    let cs = string_chars(s.as_str());
    let n: usize = cs.len();
    let mut start: usize = 0;
    let mut neg = false;
    if n > 0 && cs[0] == '-' {
        neg = true;
        start = 1;
    } else if n > 0 && cs[0] == '+' {
        start = 1;
    }
    let ghost d = cs@.skip(start as int);
    proof {
        if start == 0 {
            assert(cs@.skip(0) =~= cs@);
        }
        assert(parse_int_spec(s@) == if all_digits(d) {
            Some(if neg { -digits_value(d) } else { digits_value(d) })
        } else {
            None::<int>
        });
    }
    if start >= n {
        return Err(true);
    }
    // the magnitude, kept negative so that the most negative value fits
    let mut acc: isize = 0;
    let mut i: usize = start;
    assert(d.take(0) =~= Seq::<char>::empty());
    while i < n
        invariant
            start <= i <= n,
            n == cs@.len(),
            start < n,
            d == cs@.skip(start as int),
            d.len() == n - start,
            forall|j: int| 0 <= j < i - start ==> '0' <= #[trigger] d[j] <= '9',
            acc == -digits_value(d.take(i - start)),
            parse_int_spec(s@) == if all_digits(d) {
                Some(if neg { -digits_value(d) } else { digits_value(d) })
            } else {
                None::<int>
            },
        decreases n - i,
    {
        let c = cs[i];
        let ghost k = i - start;
        assert(d[k] == c);
        if c < '0' || c > '9' {
            return Err(true);
        }
        let v: isize = (c as u32 - '0' as u32) as isize;
        proof {
            assert(d.take(k + 1).drop_last() =~= d.take(k));
            assert(d.take(k + 1).last() == c);
            assert(digits_value(d.take(k + 1)) == digits_value(d.take(k)) * 10 + v);
            assert forall|j: int| 0 <= j < d.take(k).len() implies '0' <= #[trigger] d.take(k)[j] <= '9' by {
                assert(d.take(k)[j] == d[j]);
            }
            lemma_digits_nonneg(d.take(k));
        }
        let rest_digits = all_digits_x(&cs, i + 1);
        proof {
            if rest_digits {
                assert forall|j: int| 0 <= j < d.len() implies '0' <= #[trigger] d[j] <= '9' by {
                    if j > k {
                        assert(d[j] == cs@[start + j]);
                    }
                }
                lemma_digits_value_monotone(d, k + 1);
            } else {
                let w = choose|w: int| i + 1 <= w < cs@.len() && !('0' <= #[trigger] cs@[w] <= '9');
                assert(d[w - start] == cs@[w]);
                assert(!all_digits(d));
            }
        }
        let m = match acc.checked_mul(10) {
            Some(m) => m,
            None => return Err(!rest_digits),
        };
        acc = match m.checked_sub(v) {
            Some(x) => x,
            None => return Err(!rest_digits),
        };
        i += 1;
    }
    proof {
        assert(d.take(n - start) =~= d);
        assert(all_digits(d));
    }
    if neg {
        Ok(acc)
    } else {
        if acc == isize::MIN {
            Err(false)
        } else {
            Ok(-acc)
        }
    }
}

/// Whether the characters of `cs` from `k` on are all ASCII digits.
fn all_digits_x(cs: &Vec<char>, k: usize) -> (r: bool)
    requires
        k <= cs@.len(),
    ensures
        r == (forall|j: int| k <= j < cs@.len() ==> '0' <= #[trigger] cs@[j] <= '9'),
{
    let n: usize = cs.len();
    let mut i: usize = k;
    while i < n
        invariant
            k <= i <= n,
            n == cs@.len(),
            forall|j: int| k <= j < i ==> '0' <= #[trigger] cs@[j] <= '9',
        decreases n - i,
    {
        if cs[i] < '0' || cs[i] > '9' {
            return false;
        }
        i += 1;
    }
    true
}

/// The UTF-8 bytes of a text, as a list of integers.
fn string_to_bytes(t: &String) -> (r: VDataEnum)
    ensures
        r.model() == DataModel::List(TypeModel { types: seq![SingleTypeModel::Int] }, encode_utf8(t@).map_values(|b: u8| DataModel::Int(b as isize))),
{
    let bytes = t.as_str().as_bytes();
    let ghost e = encode_utf8(t@);
    assert(bytes@ == e);
    let mut out: Vec<VDataEnum> = Vec::new();
    let mut i: usize = 0;
    while i < bytes.len()
        invariant
            i <= bytes@.len(),
            bytes@ == e,
            datas_model(out@) == e.take(i as int).map_values(|b: u8| DataModel::Int(b as isize)),
        decreases bytes@.len() - i,
    {
        let ghost pre = datas_model(out@);
        let x = VDataEnum::Int(bytes[i] as isize);
        let ghost xm = x.model();
        out.push(x);
        assert(datas_model(out@) =~= pre.push(xm));
        assert(e.take(i + 1).map_values(|b: u8| DataModel::Int(b as isize)) =~= e.take(i as int).map_values(|b: u8| DataModel::Int(b as isize)).push(DataModel::Int(e[i as int] as isize)));
        i += 1;
    }
    assert(e.take(i as int) =~= e);
    let ty = VSingleType::Int.to();
    VDataEnum::List(ty, out)
}

/// The `len` built-in on one value.
fn run_len(d: &VDataEnum) -> (r: Option<VDataEnum>)
    ensures
        match builtin_spec(BuiltinFunction::Len, seq![d.model()]) {
            Some(v) => r matches Some(x) && x.model() == v,
            None => r is None,
        },
{
    let n: usize = match d {
        VDataEnum::String(s) => {
            let n = string_len(s.as_str());
            assert(n == encode_utf8(s@).len());
            n
        },
        VDataEnum::Tuple(v) => {
            assert(datas_model(v@).len() == v@.len());
            v.len()
        },
        VDataEnum::List(_, v) => {
            assert(datas_model(v@).len() == v@.len());
            v.len()
        },
        _ => return None,
    };
    assert(seq![d.model()][0] == d.model());
    if n <= isize::MAX as usize { Some(VDataEnum::Int(n as isize)) } else { None }
}

/// The `matches` built-in on one value.
fn run_matches(d: &VDataEnum) -> (r: VDataEnum)
    ensures
        builtin_spec(BuiltinFunction::Matches, seq![d.model()]) == Some(r.model()),
{
    match d {
        VDataEnum::Tuple(v) => {
            if v.len() > 0 {
                assert(datas_model(v@)[0] == v@[0].model());
                one_of_x(v[0].clone_data())
            } else {
                unit_x()
            }
        },
        VDataEnum::Bool(b) => if *b { one_of_x(VDataEnum::Bool(true)) } else { unit_x() },
        VDataEnum::EnumVariant(_, _) => unit_x(),
        _ => one_of_x(d.clone_data()),
    }
}

/// The built-ins that only compute: what `f` gives on the values
/// `args`, as [`builtin_spec`] says; `None` where it says `None`.
pub fn run_builtin(f: &BuiltinFunction, args: &Vec<VDataEnum>) -> (r: Option<VDataEnum>)
    ensures
        match builtin_spec(*f, datas_model(args@)) {
            Some(v) => r matches Some(d) && d.model() == v,
            None => r is None,
        },
{
    let ghost a = datas_model(args@);
    proof {
        crate::lang::val_data::lemma_datas_model(args@);
        if args@.len() == 1 {
            assert(a =~= seq![args@[0].model()]);
        }
        if args@.len() > 0 {
            assert(a[0] == args@[0].model());
        }
        if args@.len() > 1 {
            assert(a[1] == args@[1].model());
        }
        if args@.len() > 2 {
            assert(a[2] == args@[2].model());
        }
    }
    match f {
        BuiltinFunction::NoEnum => {
            if args.len() != 1 {
                return None;
            }
            match &args[0] {
                VDataEnum::EnumVariant(_, v) => Some(v.clone_data()),
                d => Some(d.clone_data()),
            }
        },
        BuiltinFunction::Matches => {
            if args.len() != 1 {
                return None;
            }
            Some(run_matches(&args[0]))
        },
        BuiltinFunction::Clone => {
            if args.len() != 1 {
                return None;
            }
            match &args[0] {
                VDataEnum::Reference(r) => Some(r.clone_data()),
                _ => None,
            }
        },
        BuiltinFunction::Not => {
            if args.len() != 1 {
                return None;
            }
            match &args[0] {
                VDataEnum::Bool(b) => Some(VDataEnum::Bool(!*b)),
                _ => None,
            }
        },
        BuiltinFunction::And => match two_bools_x(args) {
            Some((x, y)) => Some(VDataEnum::Bool(x && y)),
            None => None,
        },
        BuiltinFunction::Or => match two_bools_x(args) {
            Some((x, y)) => Some(VDataEnum::Bool(x || y)),
            None => None,
        },
        BuiltinFunction::Add => match two_strings_x(args) {
            Some((s, p)) => {
                assert(a =~= seq![DataModel::String(s@), DataModel::String(p@)]);
                run_on_strings(f, s, p)
            },
            None => match two_ints_x(args) {
                Some((x, y)) => {
                    assert(a =~= seq![DataModel::Int(x), DataModel::Int(y)]);
                    run_on_ints(f, x, y)
                },
                None => None,
            },
        },
        BuiltinFunction::Sub | BuiltinFunction::Mul | BuiltinFunction::Div | BuiltinFunction::Mod
        | BuiltinFunction::Pow | BuiltinFunction::Gt | BuiltinFunction::Lt | BuiltinFunction::Gtoe | BuiltinFunction::Ltoe
        | BuiltinFunction::Min | BuiltinFunction::Max => match two_ints_x(args) {
            Some((x, y)) => {
                assert(a =~= seq![DataModel::Int(x), DataModel::Int(y)]);
                run_on_ints(f, x, y)
            },
            None => None,
        },
        BuiltinFunction::Contains | BuiltinFunction::StartsWith | BuiltinFunction::EndsWith
        | BuiltinFunction::IndexOf => match two_strings_x(args) {
            Some((s, p)) => {
                assert(a =~= seq![DataModel::String(s@), DataModel::String(p@)]);
                run_on_strings(f, s, p)
            },
            None => None,
        },
        BuiltinFunction::Get => {
            if args.len() != 2 {
                return None;
            }
            match &args[1] {
                VDataEnum::Int(i) => {
                    if *i < 0 {
                        proof { lemma_get_negative(a[0], *i as int); }
                        return Some(unit_x());
                    }
                    match args[0].get(*i as usize) {
                        Some(x) => Some(one_of_x(x)),
                        None => Some(unit_x()),
                    }
                },
                _ => None,
            }
        },
        BuiltinFunction::Len => {
            if args.len() != 1 {
                return None;
            }
            run_len(&args[0])
        },
        BuiltinFunction::Trim => {
            if args.len() != 1 {
                return None;
            }
            match &args[0] {
                VDataEnum::String(s) => Some(VDataEnum::String(trim_string(s.as_str()))),
                _ => None,
            }
        },
        BuiltinFunction::Substring => run_substring(args),
        BuiltinFunction::Regex => match two_strings_x(args) {
            Some((t, p)) => Some(run_regex(t, p)),
            None => None,
        },
        BuiltinFunction::Eq => {
            if args.len() != 2 {
                return None;
            }
            Some(VDataEnum::Bool(data_eq_x(&args[0], &args[1])))
        },
        BuiltinFunction::Ne => {
            if args.len() != 2 {
                return None;
            }
            Some(VDataEnum::Bool(!data_eq_x(&args[0], &args[1])))
        },
        BuiltinFunction::Assume1 => {
            if args.len() != 1 && args.len() != 2 {
                return None;
            }
            match &args[0] {
                VDataEnum::Tuple(v) => {
                    if v.len() > 0 {
                        assert(datas_model(v@)[0] == v@[0].model());
                        Some(v[0].clone_data())
                    } else {
                        None
                    }
                },
                d => Some(d.clone_data()),
            }
        },
        BuiltinFunction::AssumeNoEnum => {
            if args.len() != 1 && args.len() != 2 {
                return None;
            }
            match &args[0] {
                VDataEnum::EnumVariant(_, _) => None,
                d => Some(d.clone_data()),
            }
        },
        BuiltinFunction::ParseInt => {
            if args.len() != 1 {
                return None;
            }
            match &args[0] {
                VDataEnum::String(t) => match parse_int(t) {
                    Ok(n) => Some(VDataEnum::Int(n)),
                    Err(true) => Some(unit_x()),
                    Err(false) => None,
                },
                _ => None,
            }
        },
        BuiltinFunction::StringToBytes => {
            if args.len() != 1 {
                return None;
            }
            match &args[0] {
                VDataEnum::String(t) => Some(string_to_bytes(t)),
                _ => None,
            }
        },
        BuiltinFunction::Replace => {
            if args.len() != 3 {
                return None;
            }
            match (&args[0], &args[1], &args[2]) {
                (VDataEnum::String(s), VDataEnum::String(p), VDataEnum::String(c)) => Some(VDataEnum::String(replace(s.as_str(), p.as_str(), c.as_str()))),
                _ => None,
            }
        },
        _ => None,
    }
}


/// On two integers: `gt`, `lt`, `gtoe` and `ltoe` give whether the first is
/// greater, less, greater or equal, less or equal than the second (so
/// `ltoe` is the negation of `gt` and holds of equal numbers); `min` and
/// `max` give the smaller and the larger of the two; `add`, `sub` and `mul`
/// give the exact sum, difference and product where it fits in an `isize`
/// and fail where it does not.
pub proof fn law_int_builtins(x: isize, y: isize)
    ensures
        builtin_spec(BuiltinFunction::Gt, seq![DataModel::Int(x), DataModel::Int(y)]) == Some(DataModel::Bool(x > y)),
        builtin_spec(BuiltinFunction::Lt, seq![DataModel::Int(x), DataModel::Int(y)]) == Some(DataModel::Bool(x < y)),
        builtin_spec(BuiltinFunction::Gtoe, seq![DataModel::Int(x), DataModel::Int(y)]) == Some(DataModel::Bool(x >= y)),
        builtin_spec(BuiltinFunction::Ltoe, seq![DataModel::Int(x), DataModel::Int(y)]) == Some(DataModel::Bool(x <= y)),
        builtin_spec(BuiltinFunction::Ltoe, seq![DataModel::Int(x), DataModel::Int(y)])
            == Some(DataModel::Bool(!(x > y))),
        builtin_spec(BuiltinFunction::Ltoe, seq![DataModel::Int(x), DataModel::Int(x)]) == Some(DataModel::Bool(true)),
        builtin_spec(BuiltinFunction::Gtoe, seq![DataModel::Int(x), DataModel::Int(x)]) == Some(DataModel::Bool(true)),
        builtin_spec(BuiltinFunction::Lt, seq![DataModel::Int(x), DataModel::Int(x)]) == Some(DataModel::Bool(false)),
        builtin_spec(BuiltinFunction::Gt, seq![DataModel::Int(x), DataModel::Int(x)]) == Some(DataModel::Bool(false)),
        match builtin_spec(BuiltinFunction::Min, seq![DataModel::Int(x), DataModel::Int(y)]) {
            Some(DataModel::Int(m)) => m <= x && m <= y && (m == x || m == y),
            _ => false,
        },
        match builtin_spec(BuiltinFunction::Max, seq![DataModel::Int(x), DataModel::Int(y)]) {
            Some(DataModel::Int(m)) => m >= x && m >= y && (m == x || m == y),
            _ => false,
        },
        match builtin_spec(BuiltinFunction::Add, seq![DataModel::Int(x), DataModel::Int(y)]) {
            Some(DataModel::Int(k)) => k == x + y,
            None => !(isize::MIN <= x + y <= isize::MAX),
            _ => false,
        },
        match builtin_spec(BuiltinFunction::Sub, seq![DataModel::Int(x), DataModel::Int(y)]) {
            Some(DataModel::Int(k)) => k == x - y,
            None => !(isize::MIN <= x - y <= isize::MAX),
            _ => false,
        },
        match builtin_spec(BuiltinFunction::Mul, seq![DataModel::Int(x), DataModel::Int(y)]) {
            Some(DataModel::Int(k)) => k == x * y,
            None => !(isize::MIN <= x * y <= isize::MAX),
            _ => false,
        },
{
}

/// `div` and `mod` on two integers, where the divisor is not zero and the
/// quotient fits: the quotient times the divisor plus the remainder is the
/// dividend, the remainder is smaller than the divisor in size and is zero
/// or has the dividend's sign (the quotient is rounded toward zero).
pub proof fn law_div_mod(x: isize, y: isize)
    requires
        y != 0,
        !(x == isize::MIN && y == -1),
    ensures
        match (builtin_spec(BuiltinFunction::Div, seq![DataModel::Int(x), DataModel::Int(y)]),
            builtin_spec(BuiltinFunction::Mod, seq![DataModel::Int(x), DataModel::Int(y)])) {
            (Some(DataModel::Int(q)), Some(DataModel::Int(r))) => q * y + r == x
                && (if y > 0 { -y < r < y } else { y < r < -y })
                && (r == 0 || (r > 0) == (x > 0)),
            _ => false,
        },
{
    let a = x as int;
    let b = y as int;
    let m: int = if b >= 0 { b } else { -b };
    let xa: int = if a >= 0 { a } else { -a };
    let q0 = xa / m;
    let r0 = xa % m;
    assert(q0 * m + r0 == xa && 0 <= r0 < m && 0 <= q0 <= xa) by (nonlinear_arith)
        requires m > 0, xa >= 0, q0 == xa / m, r0 == xa % m;
    assert(crate::lang::builtin_values::trunc_div(a, b) == if (a >= 0) == (b >= 0) { q0 } else { -q0 });
    assert(crate::lang::builtin_values::trunc_rem(a, b) == if a >= 0 { r0 } else { -r0 });
    let q = if (a >= 0) == (b >= 0) { q0 } else { -q0 };
    let r = if a >= 0 { r0 } else { -r0 };
    assert(q * b + r == a) by (nonlinear_arith)
        requires q0 * m + r0 == xa, m == (if b >= 0 { b } else { -b }), xa == (if a >= 0 { a } else { -a }),
            q == (if (a >= 0) == (b >= 0) { q0 } else { -q0 }), r == (if a >= 0 { r0 } else { -r0 });
    assert(isize::MIN <= q <= isize::MAX) by (nonlinear_arith)
        requires 0 <= q0 <= xa, xa == (if a >= 0 { a } else { -a }), q == (if (a >= 0) == (b >= 0) { q0 } else { -q0 }),
            isize::MIN <= a <= isize::MAX, !(a == isize::MIN && b == -1), b != 0, m == (if b >= 0 { b } else { -b }),
            q0 * m + r0 == xa, 0 <= r0 < m;
}


/// `not`, `and` and `or` on booleans are negation, conjunction and
/// disjunction; `add` on two strings joins them; `eq` and `ne` on two
/// strings or two integers say whether they are equal or not.
pub proof fn law_bool_and_equality_builtins(a: bool, b: bool, s: Seq<char>, p: Seq<char>, x: isize, y: isize)
    ensures
        builtin_spec(BuiltinFunction::Not, seq![DataModel::Bool(a)]) == Some(DataModel::Bool(!a)),
        builtin_spec(BuiltinFunction::And, seq![DataModel::Bool(a), DataModel::Bool(b)]) == Some(DataModel::Bool(a && b)),
        builtin_spec(BuiltinFunction::Or, seq![DataModel::Bool(a), DataModel::Bool(b)]) == Some(DataModel::Bool(a || b)),
        builtin_spec(BuiltinFunction::Add, seq![DataModel::String(s), DataModel::String(p)]) == Some(DataModel::String(s + p)),
        builtin_spec(BuiltinFunction::Eq, seq![DataModel::String(s), DataModel::String(p)]) == Some(DataModel::Bool(s == p)),
        builtin_spec(BuiltinFunction::Ne, seq![DataModel::String(s), DataModel::String(p)]) == Some(DataModel::Bool(s != p)),
        builtin_spec(BuiltinFunction::Eq, seq![DataModel::Int(x), DataModel::Int(y)]) == Some(DataModel::Bool(x == y)),
        builtin_spec(BuiltinFunction::Ne, seq![DataModel::Int(x), DataModel::Int(y)]) == Some(DataModel::Bool(x != y)),
{
}

/// `starts_with` and `ends_with` say whether the text begins or ends with
/// the pattern; `contains` whether the pattern stands somewhere in it;
/// `index_of` gives the first index at which the pattern stands, or an empty
/// tuple where it stands nowhere before the end.
pub proof fn law_string_search_builtins(s: Seq<char>, p: Seq<char>)
    requires
        s.len() <= isize::MAX,
    ensures
        builtin_spec(BuiltinFunction::StartsWith, seq![DataModel::String(s), DataModel::String(p)])
            == Some(DataModel::Bool(p.len() <= s.len() && s.take(p.len() as int) == p)),
        builtin_spec(BuiltinFunction::EndsWith, seq![DataModel::String(s), DataModel::String(p)])
            == Some(DataModel::Bool(p.len() <= s.len() && s.skip(s.len() - p.len()) == p)),
        builtin_spec(BuiltinFunction::Contains, seq![DataModel::String(s), DataModel::String(p)])
            == Some(DataModel::Bool(exists|k: int| 0 <= k && k + p.len() <= s.len() && #[trigger] s.subrange(k, k + p.len()) == p)),
        match builtin_spec(BuiltinFunction::IndexOf, seq![DataModel::String(s), DataModel::String(p)]) {
            Some(DataModel::Int(k)) => 0 <= k < s.len() && s.subrange(k as int, k + p.len()) == p && k + p.len() <= s.len()
                && forall|j: int| 0 <= j < k ==> !(j + p.len() <= s.len() && #[trigger] s.subrange(j, j + p.len()) == p),
            Some(d) => d == unit() && forall|j: int| 0 <= j < s.len() ==> !(j + p.len() <= s.len() && #[trigger] s.subrange(j, j + p.len()) == p),
            None => false,
        },
{
    crate::lang::builtin_values::lemma_first_from(s, p, 0);
    crate::lang::builtin_values::lemma_first_minimal(s, p, 0);
    assert(occurs_at(s, p, 0) <==> (p.len() <= s.len() && s.take(p.len() as int) == p)) by {
        if p.len() <= s.len() {
            assert(s.subrange(0, p.len() as int) =~= s.take(p.len() as int));
        }
    }
    assert((p.len() <= s.len() && occurs_at(s, p, s.len() - p.len())) <==> (p.len() <= s.len() && s.skip(s.len() - p.len()) == p)) by {
        if p.len() <= s.len() {
            assert(s.subrange(s.len() - p.len(), s.len() as int) =~= s.skip(s.len() - p.len()));
        }
    }
    assert((exists|k: int| #[trigger] occurs_at(s, p, k)) <==> (exists|k: int| 0 <= k && k + p.len() <= s.len() && #[trigger] s.subrange(k, k + p.len()) == p)) by {
        if exists|k: int| #[trigger] occurs_at(s, p, k) {
            let k = choose|k: int| #[trigger] occurs_at(s, p, k);
            assert(s.subrange(k, k + p.len()) == p);
        }
        if exists|k: int| 0 <= k && k + p.len() <= s.len() && #[trigger] s.subrange(k, k + p.len()) == p {
            let k = choose|k: int| 0 <= k && k + p.len() <= s.len() && #[trigger] s.subrange(k, k + p.len()) == p;
            assert(occurs_at(s, p, k));
        }
    }
    assert forall|j: int| 0 <= j && j + p.len() <= s.len() && #[trigger] s.subrange(j, j + p.len()) == p implies occurs_at(s, p, j) by {}
}


/// `substring` from a start that is not negative: to the end of the text
/// without an end argument, else up to the end index (or the end of the
/// text, whichever comes first); nothing where the start is past the text.
pub proof fn law_substring_from_start(s: Seq<char>, left: isize, e: isize)
    requires
        0 <= left <= e,
    ensures
        builtin_spec(BuiltinFunction::Substring, seq![DataModel::String(s), DataModel::Int(left)])
            == Some(DataModel::String(if left <= s.len() { s.skip(left as int) } else { Seq::empty() })),
        builtin_spec(BuiltinFunction::Substring, seq![DataModel::String(s), DataModel::Int(left), DataModel::Int(e)])
            == Some(DataModel::String(if left <= s.len() { s.subrange(left as int, if e <= s.len() { e as int } else { s.len() as int }) } else { Seq::empty() })),
{
    if left as int == s.len() {
        assert(s.skip(left as int) =~= Seq::<char>::empty());
    }
    if left <= s.len() {
        let end: int = if e <= s.len() { e as int } else { s.len() as int };
        let from = if left < s.len() { s.skip(left as int) } else { Seq::<char>::empty() };
        if e - left < from.len() {
            assert(from.take(e - left) =~= s.subrange(left as int, end));
        } else {
            assert(from =~= s.subrange(left as int, end));
        }
    }
}

proof fn lemma_trim_start_shape(s: Seq<char>)
    ensures
        exists|a: int| 0 <= a <= s.len() && crate::parsing::file::trim_start(s) == s.skip(a)
            && (forall|i: int| 0 <= i < a ==> crate::text::is_white_space(#[trigger] s[i]))
            && (a < s.len() ==> !crate::text::is_white_space(s[a])),
    decreases s.len(),
{
    if s.len() > 0 && crate::text::is_white_space(s[0]) {
        lemma_trim_start_shape(s.skip(1));
        let a = choose|a: int| 0 <= a <= s.skip(1).len() && crate::parsing::file::trim_start(s.skip(1)) == s.skip(1).skip(a)
            && (forall|i: int| 0 <= i < a ==> crate::text::is_white_space(#[trigger] s.skip(1)[i]))
            && (a < s.skip(1).len() ==> !crate::text::is_white_space(s.skip(1)[a]));
        assert(s.skip(1).skip(a) =~= s.skip(a + 1));
        assert forall|i: int| 0 <= i < a + 1 implies crate::text::is_white_space(#[trigger] s[i]) by {
            if i > 0 {
                assert(s.skip(1)[i - 1] == s[i]);
            }
        }
        if a + 1 < s.len() {
            assert(s.skip(1)[a] == s[a + 1]);
        }
    } else {
        assert(s.skip(0) =~= s);
    }
}

proof fn lemma_trim_end_shape(s: Seq<char>)
    ensures
        exists|b: int| 0 <= b <= s.len() && trim_end(s) == s.take(b)
            && (forall|i: int| b <= i < s.len() ==> crate::text::is_white_space(#[trigger] s[i]))
            && (b > 0 ==> !crate::text::is_white_space(s[b - 1])),
    decreases s.len(),
{
    if s.len() > 0 && crate::text::is_white_space(s.last()) {
        lemma_trim_end_shape(s.drop_last());
        let b = choose|b: int| 0 <= b <= s.drop_last().len() && trim_end(s.drop_last()) == s.drop_last().take(b)
            && (forall|i: int| b <= i < s.drop_last().len() ==> crate::text::is_white_space(#[trigger] s.drop_last()[i]))
            && (b > 0 ==> !crate::text::is_white_space(s.drop_last()[b - 1]));
        assert(s.drop_last().take(b) =~= s.take(b));
        assert forall|i: int| b <= i < s.len() implies crate::text::is_white_space(#[trigger] s[i]) by {
            if i < s.len() - 1 {
                assert(s.drop_last()[i] == s[i]);
            }
        }
        if b > 0 {
            assert(s.drop_last()[b - 1] == s[b - 1]);
        }
    } else {
        assert(s.take(s.len() as int) =~= s);
    }
}

/// `trim` takes the white space off both ends: what it gives is a part of
/// the text with only white space before and after it, and neither starts
/// nor ends with white space.
pub proof fn law_trim(s: Seq<char>)
    ensures
        match builtin_spec(BuiltinFunction::Trim, seq![DataModel::String(s)]) {
            Some(DataModel::String(r)) => exists|a: int, b: int| 0 <= a <= b <= s.len() && r == s.subrange(a, b)
                && (forall|i: int| 0 <= i < a ==> crate::text::is_white_space(#[trigger] s[i]))
                && (forall|i: int| b <= i < s.len() ==> crate::text::is_white_space(#[trigger] s[i]))
                && (r.len() > 0 ==> !crate::text::is_white_space(r[0]) && !crate::text::is_white_space(r.last())),
            _ => false,
        },
{
    lemma_trim_start_shape(s);
    let a = choose|a: int| 0 <= a <= s.len() && crate::parsing::file::trim_start(s) == s.skip(a)
        && (forall|i: int| 0 <= i < a ==> crate::text::is_white_space(#[trigger] s[i]))
        && (a < s.len() ==> !crate::text::is_white_space(s[a]));
    let u = s.skip(a);
    lemma_trim_end_shape(u);
    let b = choose|b: int| 0 <= b <= u.len() && trim_end(u) == u.take(b)
        && (forall|i: int| b <= i < u.len() ==> crate::text::is_white_space(#[trigger] u[i]))
        && (b > 0 ==> !crate::text::is_white_space(u[b - 1]));
    let r = u.take(b);
    assert(r =~= s.subrange(a, a + b));
    assert forall|i: int| a + b <= i < s.len() implies crate::text::is_white_space(#[trigger] s[i]) by {
        assert(u[i - a] == s[i]);
    }
    if r.len() > 0 {
        assert(r[0] == s[a]);
        assert(r.last() == u[b - 1]);
    }
    assert(trim(s) == r);
}

/// `len` of a tuple or a list is its number of elements.
pub proof fn law_len_of_elements(t: TypeModel, v: Seq<DataModel>)
    requires
        v.len() <= isize::MAX,
    ensures
        builtin_spec(BuiltinFunction::Len, seq![DataModel::Tuple(v)]) == Some(DataModel::Int(v.len() as isize)),
        builtin_spec(BuiltinFunction::Len, seq![DataModel::List(t, v)]) == Some(DataModel::Int(v.len() as isize)),
{
}

} // verus!
