//! Parsing type annotations, such as `[int string]`, `&[int ...]`,
//! `fn((int string))` or `thread(int/float)`.
use vstd::prelude::*;
use crate::parse::file::{File, FilePosition};
use crate::parsing::file::{advance, char_at, has_room, lemma_run_len, lemma_walk, run_len, walk};
use crate::script::type_model::{SingleTypeModel, TypeModel, fns_model, singles_model, types_model};
use crate::script::val_type::{VSingleType, VType};
use crate::lang::builtins::str_eq;
use crate::text::{char_is_whitespace, chars_to_string, is_white_space, string_chars, string_push};

verus! {

/// Why a type could not be parsed.
pub enum TypeError {
    /// The text ended inside a type.
    EofInType,
    /// The text ended where a type was expected.
    EofInsteadOfType,
    /// A name that is no type; the name without surrounding white space.
    Invalid(Seq<char>),
}

/// What parsing from a position gives: a value and the position after it,
/// an error with where the type started and where parsing stopped, or
/// `Stuck` where parsing does not return (a counter would overflow, or the
/// text is malformed in a way that stops the parser for good).
pub enum Parsed<T> {
    Done(T, FilePosition),
    Failed(TypeError, FilePosition, FilePosition),
    Stuck,
}

/// Skipping white space from `p` does not overflow a counter.
pub open spec fn sws_ok(t: Seq<char>, p: FilePosition) -> bool {
    has_room(p, run_len(t, p.current_char_index as int, true))
}

/// The position after the white space at `p`.
pub open spec fn sws(t: Seq<char>, p: FilePosition) -> FilePosition {
    walk(t, p, run_len(t, p.current_char_index as int, true))
}

/// `q` is past `p`.
pub open spec fn moved(p: FilePosition, q: FilePosition) -> bool {
    q.current_char_index > p.current_char_index
}

/// `...]` starts at index `i`.
pub open spec fn dots_at(t: Seq<char>, i: int) -> bool {
    0 <= i && i + 4 <= t.len() && t[i] == '.' && t[i + 1] == '.' && t[i + 2] == '.' && t[i + 3] == ']'
}

/// The text without white space at either end.
pub open spec fn trim_end(s: Seq<char>) -> Seq<char>
    decreases s.len(),
{
    if s.len() > 0 && is_white_space(s.last()) {
        trim_end(s.drop_last())
    } else {
        s
    }
}

pub open spec fn trim(s: Seq<char>) -> Seq<char> {
    trim_end(crate::parsing::file::trim_start(s))
}

/// What `str::to_lowercase` gives for the text `s`.
pub uninterp spec fn lowercase_of(s: Seq<char>) -> Seq<char>;

/// Every character of `s` is ASCII.
pub open spec fn all_ascii(s: Seq<char>) -> bool {
    forall|i: int| 0 <= i < s.len() ==> (#[trigger] s[i] as u32) < 128
}

/// An ASCII character in lower case: `A` to `Z` become `a` to `z`, others stay.
pub open spec fn ascii_lower_char(c: char) -> char {
    if 'A' <= c <= 'Z' {
        ((c as u32) + 32) as char
    } else {
        c
    }
}

/// ASCII text in lower case, character by character.
pub open spec fn ascii_lower(s: Seq<char>) -> Seq<char> {
    s.map_values(|c: char| ascii_lower_char(c))
}

/// `str::to_lowercase`: the lower case form of `s` by Unicode's mapping,
/// which is named here ([`lowercase_of`]) and stated only for ASCII text,
/// where the mapping turns `A` to `Z` into `a` to `z` and keeps every other
/// character.
#[verifier::external_body]
fn str_to_lowercase(s: &str) -> (r: String)
    ensures
        r@ == lowercase_of(s@),
        all_ascii(s@) ==> r@ == ascii_lower(s@),
{
    s.to_lowercase()
}

/// The lower case form of a name: for ASCII text stated character by
/// character, for other text what `str::to_lowercase` gives.
pub open spec fn lower(s: Seq<char>) -> Seq<char> {
    if all_ascii(s) {
        ascii_lower(s)
    } else {
        lowercase_of(s)
    }
}

/// The simple type a lower case name stands for.
pub open spec fn type_of_name(l: Seq<char>) -> Option<SingleTypeModel> {
    if l == "bool"@ {
        Some(SingleTypeModel::Bool)
    } else if l == "int"@ {
        Some(SingleTypeModel::Int)
    } else if l == "float"@ {
        Some(SingleTypeModel::Float)
    } else if l == "string"@ {
        Some(SingleTypeModel::String)
    } else {
        None
    }
}

/// The end of a name: the type that its trimmed, lower case form names.
pub open spec fn name_done(name: Seq<char>, p: FilePosition, closed: bool, start: FilePosition) -> Parsed<(SingleTypeModel, bool)> {
    match type_of_name(lower(trim(name))) {
        Some(t) => Parsed::Done((t, closed), p),
        None => Parsed::Failed(TypeError::Invalid(trim(name)), start, p),
    }
}

/// The alternative lists built from the types, in order: with two or more
/// types, every way to pick one alternative of each; with a single type, one
/// list holding all of its alternatives together; with none, no list.
pub open spec fn combinations(types: Seq<TypeModel>) -> Seq<Seq<SingleTypeModel>>
    decreases types.len(),
{
    if types.len() == 0 {
        Seq::empty()
    } else if types.len() == 1 {
        seq![types[0].types]
    } else {
        extend_each(combinations(types.drop_last()), types.last().types)
    }
}

/// Each of `o` extended by each of `last`, in order.
pub open spec fn extend_each(o: Seq<Seq<SingleTypeModel>>, last: Seq<SingleTypeModel>) -> Seq<Seq<SingleTypeModel>>
    decreases o.len(),
{
    if o.len() == 0 {
        Seq::empty()
    } else {
        extend_each(o.drop_last(), last) + last.map_values(|t: SingleTypeModel| o.last().push(t))
    }
}

/// The function variants one parenthesised group stands for: the last type
/// is the output (the empty tuple when there is none), and each combination
/// of the argument types is one variant.
pub open spec fn expand(args: Seq<TypeModel>) -> Seq<(Seq<SingleTypeModel>, TypeModel)> {
    let out = if args.len() > 0 {
        args.last()
    } else {
        TypeModel { types: seq![SingleTypeModel::Tuple(Seq::empty())] }
    };
    let rest = if args.len() > 0 { args.drop_last() } else { args };
    combinations(rest).map_values(|v: Seq<SingleTypeModel>| (v, out))
}

/// A single type: `&` and a single type, `[` and a tuple or list, or a name
/// (possibly followed by `(`). The flag tells whether a `)` closing function
/// arguments was consumed.
pub open spec fn pst(t: Seq<char>, p: FilePosition, inf: bool) -> Parsed<(SingleTypeModel, bool)>
    decreases usize::MAX - p.current_char_index, 0nat,
{
    if !sws_ok(t, p) {
        Parsed::Stuck
    } else {
        let p1 = sws(t, p);
        let c = char_at(t, p1.current_char_index as int);
        let p2 = advance(p1, c);
        if !has_room(p1, 1) || !moved(p, p2) {
            Parsed::Stuck
        } else {
            match c {
                Some(ch) => if ch == '&' {
                    match pst(t, p2, inf) {
                        Parsed::Done((x, cl), q) => Parsed::Done((SingleTypeModel::Reference(Box::new(x)), cl), q),
                        Parsed::Failed(e, s, x) => Parsed::Failed(e, s, x),
                        Parsed::Stuck => Parsed::Stuck,
                    }
                } else if ch == '[' {
                    tuple_loop(t, p2, Seq::empty(), inf, p1)
                } else {
                    name_loop(t, p2, seq![ch], inf, p1)
                },
                None => Parsed::Failed(TypeError::EofInsteadOfType, p1, p2),
            }
        }
    }
}

/// The end of `[...]`: where function arguments are parsed, a `)` after it
/// closes them; `...]` makes a list of the last type.
pub open spec fn finish(t: Seq<char>, p: FilePosition, types: Seq<TypeModel>, list: bool, inf: bool) -> Parsed<(SingleTypeModel, bool)> {
    let p1 = sws(t, p);
    let close = inf && char_at(t, p1.current_char_index as int) == Some(')');
    if inf && !sws_ok(t, p) || close && !has_room(p1, 1) {
        Parsed::Stuck
    } else {
        let q = if close { advance(p1, Some(')')) } else if inf { p1 } else { p };
        if list {
            if types.len() == 0 {
                Parsed::Stuck
            } else {
                Parsed::Done((SingleTypeModel::List(types.last()), close), q)
            }
        } else {
            Parsed::Done((SingleTypeModel::Tuple(types), close), q)
        }
    }
}

/// The types of `[...]`, up to `]` or `...]`.
pub open spec fn tuple_loop(t: Seq<char>, p: FilePosition, types: Seq<TypeModel>, inf: bool, start: FilePosition) -> Parsed<(SingleTypeModel, bool)>
    decreases usize::MAX - p.current_char_index, 3nat,
{
    if !sws_ok(t, p) {
        Parsed::Stuck
    } else {
        let p1 = sws(t, p);
        if dots_at(t, p1.current_char_index as int) {
            if !has_room(p1, 4) {
                Parsed::Stuck
            } else {
                finish(t, walk(t, p1, 4), types, true, inf)
            }
        } else if char_at(t, p1.current_char_index as int) == Some(']') {
            if !has_room(p1, 1) {
                Parsed::Stuck
            } else {
                finish(t, advance(p1, Some(']')), types, false, inf)
            }
        } else {
            proof {
                lemma_walk(t, p, run_len(t, p.current_char_index as int, true));
            }
            match pt(t, p1, false) {
                Parsed::Done((x, _), q) => if moved(p, q) {
                    tuple_loop(t, q, types.push(x), inf, start)
                } else {
                    Parsed::Stuck
                },
                Parsed::Failed(e, s, x) => Parsed::Failed(e, s, x),
                Parsed::Stuck => Parsed::Stuck,
            }
        }
    }
}

/// The rest of a name, up to `]`, `/`, white space, `)` where function
/// arguments are parsed, or `(`.
pub open spec fn name_loop(t: Seq<char>, p: FilePosition, name: Seq<char>, inf: bool, start: FilePosition) -> Parsed<(SingleTypeModel, bool)>
    decreases usize::MAX - p.current_char_index, 3nat,
{
    let c = char_at(t, p.current_char_index as int);
    if c == Some(']') || c == Some('/') {
        name_done(name, p, false, start)
    } else if c == Some(')') && inf {
        if !has_room(p, 1) {
            Parsed::Stuck
        } else {
            name_done(name, advance(p, c), true, start)
        }
    } else if c matches Some(ch) && is_white_space(ch) {
        name_done(name, p, false, start)
    } else {
        let q = advance(p, c);
        if !has_room(p, 1) || !moved(p, q) {
            Parsed::Stuck
        } else {
            match c {
                Some(ch) => if ch == '(' {
                    paren(t, q, name, inf, start)
                } else {
                    name_loop(t, q, name.push(ch), inf, start)
                },
                None => Parsed::Failed(TypeError::EofInType, start, q),
            }
        }
    }
}

/// A name followed by `(`: a function type, a thread, or an enum variant.
pub open spec fn paren(t: Seq<char>, p: FilePosition, name: Seq<char>, inf: bool, start: FilePosition) -> Parsed<(SingleTypeModel, bool)>
    decreases usize::MAX - p.current_char_index, 4nat,
{
    if name == "fn"@ {
        fn_loop(t, p, Seq::empty(), inf, start)
    } else if name == "thread"@ {
        match pt(t, p, true) {
            Parsed::Done((x, _), q) => Parsed::Done((SingleTypeModel::Thread(x), false), q),
            Parsed::Failed(e, s, x) => Parsed::Failed(e, s, x),
            Parsed::Stuck => Parsed::Stuck,
        }
    } else {
        match pt(t, p, true) {
            Parsed::Done((x, cl), q) => if cl {
                Parsed::Done((SingleTypeModel::EnumVariantS(name, x), false), q)
            } else if has_room(q, 1) && char_at(t, q.current_char_index as int) == Some(')') {
                Parsed::Done((SingleTypeModel::EnumVariantS(name, x), false), advance(q, Some(')')))
            } else {
                Parsed::Stuck
            },
            Parsed::Failed(e, s, x) => Parsed::Failed(e, s, x),
            Parsed::Stuck => Parsed::Stuck,
        }
    }
}

/// The end of a function type: where function arguments are parsed, a `)`
/// right after it closes them.
pub open spec fn fn_end(t: Seq<char>, p: FilePosition, fts: Seq<(Seq<SingleTypeModel>, TypeModel)>, inf: bool) -> Parsed<(SingleTypeModel, bool)> {
    if inf && char_at(t, p.current_char_index as int) == Some(')') {
        if !has_room(p, 1) {
            Parsed::Stuck
        } else {
            Parsed::Done((SingleTypeModel::Function(fts), true), advance(p, Some(')')))
        }
    } else {
        Parsed::Done((SingleTypeModel::Function(fts), false), p)
    }
}

/// The parenthesised groups of a function type; any character other than
/// `(` ends it.
pub open spec fn fn_loop(t: Seq<char>, p: FilePosition, fts: Seq<(Seq<SingleTypeModel>, TypeModel)>, inf: bool, start: FilePosition) -> Parsed<(SingleTypeModel, bool)>
    decreases usize::MAX - p.current_char_index, 3nat,
{
    if !sws_ok(t, p) {
        Parsed::Stuck
    } else {
        let p1 = sws(t, p);
        let c = char_at(t, p1.current_char_index as int);
        let p2 = advance(p1, c);
        if !has_room(p1, 1) || !moved(p, p2) {
            Parsed::Stuck
        } else {
            match c {
                Some(ch) => if ch == '(' {
                    match args_loop(t, p2, Seq::empty()) {
                        Parsed::Done(args, q) => if moved(p, q) {
                            fn_loop(t, q, fts + expand(args), inf, start)
                        } else {
                            Parsed::Stuck
                        },
                        Parsed::Failed(e, s, x) => Parsed::Failed(e, s, x),
                        Parsed::Stuck => Parsed::Stuck,
                    }
                } else {
                    fn_end(t, p2, fts, inf)
                },
                None => Parsed::Failed(TypeError::EofInType, start, p2),
            }
        }
    }
}

/// The types of one group of a function type, up to the `)` that closes it.
pub open spec fn args_loop(t: Seq<char>, p: FilePosition, args: Seq<TypeModel>) -> Parsed<Seq<TypeModel>>
    decreases usize::MAX - p.current_char_index, 3nat,
{
    match pt(t, p, true) {
        Parsed::Done((x, cl), q) => if cl {
            Parsed::Done(args.push(x), q)
        } else if moved(p, q) {
            args_loop(t, q, args.push(x))
        } else {
            Parsed::Stuck
        },
        Parsed::Failed(e, s, x) => Parsed::Failed(e, s, x),
        Parsed::Stuck => Parsed::Stuck,
    }
}

/// Single types separated by `/`; a `)` after one ends the type and closes
/// function arguments.
pub open spec fn type_loop(t: Seq<char>, p: FilePosition, types: Seq<SingleTypeModel>, inf: bool) -> Parsed<(Seq<SingleTypeModel>, bool)>
    decreases usize::MAX - p.current_char_index, 1nat,
{
    match pst(t, p, inf) {
        Parsed::Done((st, cl), q) => {
            let ts = types.push(st);
            if cl {
                Parsed::Done((ts, true), q)
            } else if !sws_ok(t, q) {
                Parsed::Stuck
            } else {
                let q1 = sws(t, q);
                let c = char_at(t, q1.current_char_index as int);
                if c == Some('/') {
                    let q2 = advance(q1, c);
                    if !has_room(q1, 1) || !moved(p, q2) {
                        Parsed::Stuck
                    } else {
                        type_loop(t, q2, ts, inf)
                    }
                } else if c == Some(')') {
                    if !has_room(q1, 1) {
                        Parsed::Stuck
                    } else {
                        Parsed::Done((ts, true), advance(q1, c))
                    }
                } else {
                    Parsed::Done((ts, false), q1)
                }
            }
        },
        Parsed::Failed(e, s, x) => Parsed::Failed(e, s, x),
        Parsed::Stuck => Parsed::Stuck,
    }
}

/// A type: single types separated by `/`.
pub open spec fn pt(t: Seq<char>, p: FilePosition, inf: bool) -> Parsed<(TypeModel, bool)>
    decreases usize::MAX - p.current_char_index, 2nat,
{
    match type_loop(t, p, Seq::empty(), inf) {
        Parsed::Done((ts, cl), q) => Parsed::Done((TypeModel { types: ts }, cl), q),
        Parsed::Failed(e, s, x) => Parsed::Failed(e, s, x),
        Parsed::Stuck => Parsed::Stuck,
    }
}

broadcast use crate::script::type_model::group_model_lemmas;

/// What went wrong while parsing.
pub enum ParseErrors {
    StatementCannotStartWith(char),
    FoundClosingRoundBracketInSingleStatementBlockBeforeAnyStatement,
    FoundClosingCurlyBracketInSingleStatementBlockBeforeAnyStatement,
    FoundEofInBlockBeforeStatementOrClosingCurlyBracket,
    FoundEofInString,
    FoundEofInStatement,
    FoundEofInFunctionArgName,
    FoundEofInType,
    FoundEofInsteadOfType,
    InvalidType(String),
    CannotUseFixedIndexingWithThisType(VType),
    ErrorParsingFunctionArgs(Box<ParseError>),
    CannotWrapWithThisStatement(crate::script::code_parsed::SStatementEnum),
}

/// A parse error: what went wrong, where, and in which context.
pub struct ParseError {
    pub err: ParseErrors,
    /// Where the erroneous part starts.
    pub location: FilePosition,
    /// Where it ends, when known.
    pub location_end: Option<FilePosition>,
    /// What was being parsed, outermost first, with where it was.
    pub context: Vec<(String, Option<(FilePosition, Option<FilePosition>)>)>,
}

/// `e` is the error `k` from `s` to `x`, without context.
pub open spec fn error_is(e: ParseError, k: TypeError, s: FilePosition, x: FilePosition) -> bool {
    &&& e.location == s
    &&& e.location_end == Some(x)
    &&& e.context@.len() == 0
    &&& match k {
        TypeError::EofInType => e.err is FoundEofInType,
        TypeError::EofInsteadOfType => e.err is FoundEofInsteadOfType,
        TypeError::Invalid(n) => e.err matches ParseErrors::InvalidType(m) && m@ == n,
    }
}

/// The result `r`, with the file left at `fp`, is what `o` says.
pub open spec fn single_outcome(o: Parsed<(SingleTypeModel, bool)>, r: Result<(VSingleType, bool), ParseError>, fp: FilePosition) -> bool {
    match o {
        Parsed::Done((m, cl), q) => r matches Ok((x, c)) && x.model() == m && c == cl && fp == q,
        Parsed::Failed(k, s, x) => r matches Err(e) && error_is(e, k, s, x) && fp == x,
        Parsed::Stuck => false,
    }
}

pub open spec fn type_outcome(o: Parsed<(TypeModel, bool)>, r: Result<(VType, bool), ParseError>, fp: FilePosition) -> bool {
    match o {
        Parsed::Done((m, cl), q) => r matches Ok((x, c)) && x.model() == m && c == cl && fp == q,
        Parsed::Failed(k, s, x) => r matches Err(e) && error_is(e, k, s, x) && fp == x,
        Parsed::Stuck => false,
    }
}

fn type_error(k: u8, name: Option<String>, start: FilePosition, end: FilePosition) -> (e: ParseError)
    requires
        k == 0 || k == 1 || (k == 2 && name is Some),
    ensures
        k == 0 ==> error_is(e, TypeError::EofInType, start, end),
        k == 1 ==> error_is(e, TypeError::EofInsteadOfType, start, end),
        k == 2 ==> error_is(e, TypeError::Invalid(name.unwrap()@), start, end),
{
    let err = if k == 0 {
        ParseErrors::FoundEofInType
    } else if k == 1 {
        ParseErrors::FoundEofInsteadOfType
    } else {
        match name {
            Some(n) => ParseErrors::InvalidType(n),
            None => ParseErrors::FoundEofInType,
        }
    };
    ParseError { err, location: start, location_end: Some(end), context: Vec::new() }
}

/// The text without white space at either end.
pub fn trim_string(s: &str) -> (r: String)
    ensures
        r@ == trim(s@),
{
    let cs = string_chars(s);
    let mut a: usize = 0;
    assert(cs@.skip(0) =~= cs@);
    while a < cs.len() && char_is_whitespace(cs[a])
        invariant
            a <= cs@.len(),
            crate::parsing::file::trim_start(cs@.skip(a as int)) == crate::parsing::file::trim_start(cs@),
        decreases cs@.len() - a,
    {
        assert(cs@.skip(a as int)[0] == cs@[a as int]);
        assert(cs@.skip(a as int).skip(1) =~= cs@.skip(a + 1));
        a += 1;
    }
    if a < cs.len() {
        assert(cs@.skip(a as int)[0] == cs@[a as int]);
    }
    let mut b: usize = cs.len();
    assert(cs@.subrange(a as int, b as int) =~= cs@.skip(a as int));
    while b > a && char_is_whitespace(cs[b - 1])
        invariant
            a <= b <= cs@.len(),
            trim_end(cs@.subrange(a as int, b as int)) == trim(cs@),
        decreases b,
    {
        assert(cs@.subrange(a as int, b as int).last() == cs@[b - 1]);
        assert(cs@.subrange(a as int, b as int).drop_last() =~= cs@.subrange(a as int, b - 1));
        b -= 1;
    }
    if b > a {
        assert(cs@.subrange(a as int, b as int).last() == cs@[b - 1]);
    }
    chars_to_string(&cs, a, b)
}

/// The simple type that the lower case name `l` stands for.
pub fn type_from_lowercase_name(l: &str) -> (r: Option<VSingleType>)
    ensures
        r matches Some(x) ==> type_of_name(l@) == Some(x.model()),
        r is None ==> type_of_name(l@) is None,
{
    proof {
        reveal_strlit("bool");
        reveal_strlit("int");
        reveal_strlit("float");
        reveal_strlit("string");
    }
    if str_eq(l, "bool") {
        Some(VSingleType::Bool)
    } else if str_eq(l, "int") {
        Some(VSingleType::Int)
    } else if str_eq(l, "float") {
        Some(VSingleType::Float)
    } else if str_eq(l, "string") {
        Some(VSingleType::String)
    } else {
        None
    }
}

/// The type a finished name stands for, as [`name_done`] says.
fn name_done_x(name: &String, p: FilePosition, closed: bool, start: FilePosition) -> (r: Result<(VSingleType, bool), ParseError>)
    ensures
        single_outcome(name_done(name@, p, closed, start), r, p),
{
    let trimmed = trim_string(name.as_str());
    let lower = str_to_lowercase(trimmed.as_str());
    match type_from_lowercase_name(lower.as_str()) {
        Some(t) => Ok((t, closed)),
        None => Err(type_error(2, Some(trimmed), start, p)),
    }
}

/// The alternative lists that [`combinations`] gives.
fn combinations_x(types: &Vec<VType>) -> (r: Vec<Vec<VSingleType>>)
    ensures
        r@.len() == combinations(types_model(types@)).len(),
        forall|i: int| 0 <= i < r@.len() ==> singles_model(#[trigger] r@[i]@) == combinations(types_model(types@))[i],
{
    let ghost tm = types_model(types@);
    let mut o: Vec<Vec<VSingleType>> = Vec::new();
    if types.len() == 0 {
        return o;
    }
    o.push(crate::script::val_type::clone_singles(&types[0].types));
    assert(tm.take(1) =~= seq![tm[0]]);
    assert(tm[0] == types@[0].model());
    let mut k: usize = 1;
    while k < types.len()
        invariant
            1 <= k <= types@.len(),
            tm == types_model(types@),
            tm.len() == types@.len(),
            o@.len() == combinations(tm.take(k as int)).len(),
            forall|i: int| 0 <= i < o@.len() ==> singles_model(#[trigger] o@[i]@) == combinations(tm.take(k as int))[i],
        decreases types@.len() - k,
    {
        let ghost prev = combinations(tm.take(k as int));
        let last = &types[k].types;
        let ghost lm = singles_model(last@);
        assert(tm[k as int] == types@[k as int].model());
        assert(tm.take(k + 1).drop_last() =~= tm.take(k as int));
        assert(tm.take(k + 1).last() == tm[k as int]);
        let mut next: Vec<Vec<VSingleType>> = Vec::new();
        let mut i: usize = 0;
        while i < o.len()
            invariant
                i <= o@.len(),
                o@.len() == prev.len(),
                forall|q: int| 0 <= q < o@.len() ==> singles_model(#[trigger] o@[q]@) == prev[q],
                lm == singles_model(last@),
                next@.len() == extend_each(prev.take(i as int), lm).len(),
                forall|q: int| 0 <= q < next@.len() ==> singles_model(#[trigger] next@[q]@) == extend_each(prev.take(i as int), lm)[q],
            decreases o@.len() - i,
        {
            let ghost before = extend_each(prev.take(i as int), lm);
            assert(prev.take(i + 1).drop_last() =~= prev.take(i as int));
            assert(prev.take(i + 1).last() == prev[i as int]);
            let mut j: usize = 0;
            while j < last.len()
                invariant
                    i < o@.len(),
                    j <= last@.len(),
                    lm == singles_model(last@),
                    lm.len() == last@.len(),
                    singles_model(o@[i as int]@) == prev[i as int],
                    next@.len() == before.len() + j,
                    forall|q: int| 0 <= q < before.len() ==> singles_model(#[trigger] next@[q]@) == before[q],
                    forall|q: int| 0 <= q < j ==> singles_model(#[trigger] next@[before.len() + q]@) == prev[i as int].push(lm[q]),
                decreases last@.len() - j,
            {
                let mut v = crate::script::val_type::clone_singles(&o[i]);
                let ghost vm = singles_model(v@);
                v.push(last[j].deep_clone());
                assert(singles_model(v@) =~= vm.push(lm[j as int]));
                next.push(v);
                j += 1;
            }
            proof {
                let ext = lm.map_values(|t: SingleTypeModel| prev.take(i + 1).last().push(t));
                assert(extend_each(prev.take(i + 1), lm) == before + ext);
                assert forall|q: int| 0 <= q < next@.len() implies singles_model(#[trigger] next@[q]@) == (before + ext)[q] by {
                    if q >= before.len() {
                        assert(next@[q] == next@[before.len() + (q - before.len())]);
                    }
                }
            }
            i += 1;
        }
        assert(prev.take(i as int) =~= prev);
        o = next;
        k += 1;
    }
    assert(tm.take(k as int) =~= tm);
    o
}

pub open spec fn args_outcome(o: Parsed<Seq<TypeModel>>, r: Result<Vec<VType>, ParseError>, fp: FilePosition) -> bool {
    match o {
        Parsed::Done(m, q) => r matches Ok(x) && types_model(x@) == m && fp == q,
        Parsed::Failed(k, s, x) => r matches Err(e) && error_is(e, k, s, x) && fp == x,
        Parsed::Stuck => false,
    }
}

pub proof fn lemma_sws(t: Seq<char>, p: FilePosition)
    requires
        sws_ok(t, p),
    ensures
        sws(t, p).current_char_index >= p.current_char_index,
{
    lemma_walk(t, p, run_len(t, p.current_char_index as int, true));
}

/// The end of `[...]`, as [`finish`] says.
fn finish_x(file: &mut File, types: Vec<VType>, list: bool, inf: bool) -> (r: Result<(VSingleType, bool), ParseError>)
    requires
        !(finish(old(file).text(), old(file).pos_spec(), types_model(types@), list, inf) is Stuck),
    ensures
        final(file).text() == old(file).text(),
        single_outcome(finish(old(file).text(), old(file).pos_spec(), types_model(types@), list, inf), r, final(file).pos_spec()),
{
    let ghost tm = types_model(types@);
    let mut close = false;
    if inf {
        file.skip_whitespaces();
        if file.peek() == Some(')') {
            close = true;
            let _ = file.next();
        }
    }
    let mut types = types;
    if list {
        match types.pop() {
            Some(v) => {
                assert(tm.last() == v.model());
                Ok((VSingleType::List(v), close))
            },
            None => {
                assert(false);
                Err(type_error(0, None, *file.get_pos(), *file.get_pos()))
            },
        }
    } else {
        Ok((VSingleType::Tuple(types), close))
    }
}

/// The types of `[...]`, as [`tuple_loop`] says from an empty list.
fn tuple_rest(file: &mut File, inf: bool, start: FilePosition) -> (r: Result<(VSingleType, bool), ParseError>)
    requires
        !(tuple_loop(old(file).text(), old(file).pos_spec(), Seq::empty(), inf, start) is Stuck),
    ensures
        final(file).text() == old(file).text(),
        single_outcome(tuple_loop(old(file).text(), old(file).pos_spec(), Seq::empty(), inf, start), r, final(file).pos_spec()),
    decreases usize::MAX - old(file).pos_spec().current_char_index, 3nat,
{
    let ghost t = file.text();
    let ghost p0 = file.pos_spec();
    let ghost res = tuple_loop(t, p0, Seq::empty(), inf, start);
    let mut types: Vec<VType> = Vec::new();
    assert(types_model(types@) =~= Seq::<TypeModel>::empty());
    loop
        invariant
            file.text() == t,
            t == old(file).text(),
            p0 == old(file).pos_spec(),
            file.pos_spec().current_char_index >= p0.current_char_index,
            tuple_loop(t, file.pos_spec(), types_model(types@), inf, start) == res,
            res == tuple_loop(t, p0, Seq::empty(), inf, start),
            !(res is Stuck),
        decreases usize::MAX - file.pos_spec().current_char_index,
    {
        let ghost pc = file.pos_spec();
        let ghost tm = types_model(types@);
        proof { lemma_sws(t, pc); }
        file.skip_whitespaces();
        let p1 = *file.get_pos();
        let i = p1.current_char_index;
        if i < usize::MAX - 3 && file.get_char(i) == Some('.') && file.get_char(i + 1) == Some('.')
            && file.get_char(i + 2) == Some('.') && file.get_char(i + 3) == Some(']') {
            assert(dots_at(t, i as int));
            proof {
                lemma_walk(t, p1, 0);
                lemma_walk(t, p1, 1);
                lemma_walk(t, p1, 2);
                lemma_walk(t, p1, 3);
            }
            let _ = file.next();
            assert(file.pos_spec() == walk(t, p1, 1));
            let _ = file.next();
            assert(file.pos_spec() == walk(t, p1, 2));
            let _ = file.next();
            assert(file.pos_spec() == walk(t, p1, 3));
            let _ = file.next();
            assert(file.pos_spec() == walk(t, p1, 4));
            return finish_x(file, types, true, inf);
        }
        assert(!dots_at(t, i as int));
        if file.peek() == Some(']') {
            let _ = file.next();
            return finish_x(file, types, false, inf);
        }
        match parse_type_adv(file, false) {
            Ok((x, _)) => {
                let ghost xm = x.model();
                types.push(x);
                assert(types_model(types@) =~= tm.push(xm));
            },
            Err(e) => {
                return Err(e);
            },
        }
    }
}

/// A name's type once it ends, after `(` where one follows, as [`name_loop`] says.
fn name_rest(file: &mut File, first: String, inf: bool, start: FilePosition) -> (r: Result<(VSingleType, bool), ParseError>)
    requires
        !(name_loop(old(file).text(), old(file).pos_spec(), first@, inf, start) is Stuck),
    ensures
        final(file).text() == old(file).text(),
        single_outcome(name_loop(old(file).text(), old(file).pos_spec(), first@, inf, start), r, final(file).pos_spec()),
    decreases usize::MAX - old(file).pos_spec().current_char_index, 3nat,
{
    let ghost t = file.text();
    let ghost p0 = file.pos_spec();
    let ghost name0 = first@;
    let ghost res = name_loop(t, p0, name0, inf, start);
    let mut name = first;
    loop
        invariant
            file.text() == t,
            t == old(file).text(),
            p0 == old(file).pos_spec(),
            file.pos_spec().current_char_index >= p0.current_char_index,
            name_loop(t, file.pos_spec(), name@, inf, start) == res,
            res == name_loop(t, p0, name0, inf, start),
            name0 == first@,
            !(res is Stuck),
        decreases usize::MAX - file.pos_spec().current_char_index,
    {
        let c = file.peek();
        if c == Some(']') || c == Some('/') {
            return name_done_x(&name, *file.get_pos(), false, start);
        }
        if c == Some(')') && inf {
            let _ = file.next();
            return name_done_x(&name, *file.get_pos(), true, start);
        }
        match c {
            Some(ch) => {
                if char_is_whitespace(ch) {
                    return name_done_x(&name, *file.get_pos(), false, start);
                }
            },
            None => {},
        }
        let d = file.next();
        match d {
            Some(ch) => {
                if ch == '(' {
                    return paren_x(file, name, inf, start);
                }
                string_push(&mut name, ch);
            },
            None => {
                return Err(type_error(0, None, start, *file.get_pos()));
            },
        }
    }
}

/// A name followed by `(`, as [`paren`] says.
fn paren_x(file: &mut File, name: String, inf: bool, start: FilePosition) -> (r: Result<(VSingleType, bool), ParseError>)
    requires
        !(paren(old(file).text(), old(file).pos_spec(), name@, inf, start) is Stuck),
    ensures
        final(file).text() == old(file).text(),
        single_outcome(paren(old(file).text(), old(file).pos_spec(), name@, inf, start), r, final(file).pos_spec()),
    decreases usize::MAX - old(file).pos_spec().current_char_index, 4nat,
{
    if str_eq(name.as_str(), "fn") {
        fn_rest(file, inf, start)
    } else if str_eq(name.as_str(), "thread") {
        match parse_type_adv(file, true) {
            Ok((x, _)) => Ok((VSingleType::Thread(x), false)),
            Err(e) => Err(e),
        }
    } else {
        match parse_type_adv(file, true) {
            Ok((x, closed)) => {
                if !closed {
                    let n = file.next();
                    if n != Some(')') {
                        assert(false);
                    }
                }
                Ok((VSingleType::EnumVariantS(name, x), false))
            },
            Err(e) => Err(e),
        }
    }
}

/// The end of a function type, as [`fn_end`] says.
fn fn_end_x(file: &mut File, fts: Vec<(Vec<VSingleType>, VType)>, inf: bool) -> (r: Result<(VSingleType, bool), ParseError>)
    requires
        !(fn_end(old(file).text(), old(file).pos_spec(), fns_model(fts@), inf) is Stuck),
    ensures
        final(file).text() == old(file).text(),
        single_outcome(fn_end(old(file).text(), old(file).pos_spec(), fns_model(fts@), inf), r, final(file).pos_spec()),
{
    if inf && file.peek() == Some(')') {
        let _ = file.next();
        Ok((VSingleType::Function(fts), true))
    } else {
        Ok((VSingleType::Function(fts), false))
    }
}

/// The groups of a function type, as [`fn_loop`] says from no variants.
fn fn_rest(file: &mut File, inf: bool, start: FilePosition) -> (r: Result<(VSingleType, bool), ParseError>)
    requires
        !(fn_loop(old(file).text(), old(file).pos_spec(), Seq::empty(), inf, start) is Stuck),
    ensures
        final(file).text() == old(file).text(),
        single_outcome(fn_loop(old(file).text(), old(file).pos_spec(), Seq::empty(), inf, start), r, final(file).pos_spec()),
    decreases usize::MAX - old(file).pos_spec().current_char_index, 3nat,
{
    let ghost t = file.text();
    let ghost p0 = file.pos_spec();
    let ghost res = fn_loop(t, p0, Seq::empty(), inf, start);
    let mut fn_types: Vec<(Vec<VSingleType>, VType)> = Vec::new();
    assert(fns_model(fn_types@) =~= Seq::<(Seq<SingleTypeModel>, TypeModel)>::empty());
    loop
        invariant
            file.text() == t,
            t == old(file).text(),
            p0 == old(file).pos_spec(),
            file.pos_spec().current_char_index >= p0.current_char_index,
            fn_loop(t, file.pos_spec(), fns_model(fn_types@), inf, start) == res,
            res == fn_loop(t, p0, Seq::empty(), inf, start),
            !(res is Stuck),
        decreases usize::MAX - file.pos_spec().current_char_index,
    {
        let ghost pc = file.pos_spec();
        let ghost fm = fns_model(fn_types@);
        proof { lemma_sws(t, pc); }
        file.skip_whitespaces();
        let c = file.next();
        match c {
            Some(ch) => {
                if ch == '(' {
                    let mut args = match args_x(file) {
                        Ok(a) => a,
                        Err(e) => {
                            return Err(e);
                        },
                    };
                    let ghost am = types_model(args@);
                    let out = match args.pop() {
                        Some(v) => v,
                        None => VSingleType::Tuple(Vec::new()).to(),
                    };
                    proof {
                        if am.len() > 0 {
                            assert(types_model(args@) =~= am.drop_last());
                            assert(am.last() == out.model());
                        } else {
                            assert(types_model(Seq::<VType>::empty()) =~= Seq::<TypeModel>::empty());
                            assert(out.model().types[0] == SingleTypeModel::Tuple(types_model(Seq::<VType>::empty())));
                            assert(out.model() == TypeModel { types: seq![SingleTypeModel::Tuple(Seq::empty())] });
                        }
                    }
                    let combos = combinations_x(&args);
                    let ghost ex = expand(am);
                    let ghost base = fns_model(fn_types@);
                    let mut k: usize = 0;
                    while k < combos.len()
                        invariant
                            k <= combos@.len(),
                            ex.len() == combos@.len(),
                            forall|q: int| 0 <= q < combos@.len() ==> (singles_model(#[trigger] combos@[q]@), out.model()) == ex[q],
                            fns_model(fn_types@) == base + ex.take(k as int),
                        decreases combos@.len() - k,
                    {
                        let ghost pre = fns_model(fn_types@);
                        let entry = (crate::script::val_type::clone_singles(&combos[k]), out.deep_clone());
                        fn_types.push(entry);
                        assert(fns_model(fn_types@) =~= pre.push(ex[k as int]));
                        assert(ex.take(k + 1) =~= ex.take(k as int).push(ex[k as int]));
                        k += 1;
                    }
                    assert(ex.take(k as int) =~= ex);
                } else {
                    return fn_end_x(file, fn_types, inf);
                }
            },
            None => {
                return Err(type_error(0, None, start, *file.get_pos()));
            },
        }
    }
}

/// The types of one group of a function type, as [`args_loop`] says from none.
fn args_x(file: &mut File) -> (r: Result<Vec<VType>, ParseError>)
    requires
        !(args_loop(old(file).text(), old(file).pos_spec(), Seq::empty()) is Stuck),
    ensures
        final(file).text() == old(file).text(),
        args_outcome(args_loop(old(file).text(), old(file).pos_spec(), Seq::empty()), r, final(file).pos_spec()),
    decreases usize::MAX - old(file).pos_spec().current_char_index, 3nat,
{
    let ghost t = file.text();
    let ghost p0 = file.pos_spec();
    let ghost res = args_loop(t, p0, Seq::empty());
    let mut args: Vec<VType> = Vec::new();
    assert(types_model(args@) =~= Seq::<TypeModel>::empty());
    loop
        invariant
            file.text() == t,
            t == old(file).text(),
            p0 == old(file).pos_spec(),
            file.pos_spec().current_char_index >= p0.current_char_index,
            args_loop(t, file.pos_spec(), types_model(args@)) == res,
            res == args_loop(t, p0, Seq::empty()),
            !(res is Stuck),
        decreases usize::MAX - file.pos_spec().current_char_index,
    {
        let ghost am = types_model(args@);
        match parse_type_adv(file, true) {
            Ok((x, closed)) => {
                let ghost xm = x.model();
                args.push(x);
                assert(types_model(args@) =~= am.push(xm));
                if closed {
                    return Ok(args);
                }
            },
            Err(e) => {
                return Err(e);
            },
        }
    }
}

/// Parses a type: single types separated by `/`. The flag tells whether a
/// `)` that closes function arguments was consumed (only looked for where
/// `in_fn_args` holds or a `)` follows a single type).
pub fn parse_type_adv(file: &mut File, in_fn_args: bool) -> (r: Result<(VType, bool), ParseError>)
    requires
        !(pt(old(file).text(), old(file).pos_spec(), in_fn_args) is Stuck),
    ensures
        final(file).text() == old(file).text(),
        type_outcome(pt(old(file).text(), old(file).pos_spec(), in_fn_args), r, final(file).pos_spec()),
    decreases usize::MAX - old(file).pos_spec().current_char_index, 2nat,
{
    let ghost t = file.text();
    let ghost p0 = file.pos_spec();
    let ghost res = type_loop(t, p0, Seq::empty(), in_fn_args);
    let mut types: Vec<VSingleType> = Vec::new();
    assert(singles_model(types@) =~= Seq::<SingleTypeModel>::empty());
    loop
        invariant
            file.text() == t,
            t == old(file).text(),
            p0 == old(file).pos_spec(),
            file.pos_spec().current_char_index >= p0.current_char_index,
            type_loop(t, file.pos_spec(), singles_model(types@), in_fn_args) == res,
            res == type_loop(t, p0, Seq::empty(), in_fn_args),
            !(res is Stuck),
            pt(t, p0, in_fn_args) == match res {
                Parsed::Done((ts, cl), q) => Parsed::Done((TypeModel { types: ts }, cl), q),
                Parsed::Failed(e, s, x) => Parsed::Failed(e, s, x),
                Parsed::Stuck => Parsed::Stuck,
            },
        decreases usize::MAX - file.pos_spec().current_char_index,
    {
        let ghost sm = singles_model(types@);
        match parse_single_type_adv(file, in_fn_args) {
            Ok((st, closed)) => {
                let ghost stm = st.model();
                types.push(st);
                assert(singles_model(types@) =~= sm.push(stm));
                if closed {
                    let r = VType { types };
                    assert(r.model().types == singles_model(r.types@));
                    return Ok((r, true));
                }
                let ghost pq = file.pos_spec();
                proof { lemma_sws(t, pq); }
                file.skip_whitespaces();
                let c = file.peek();
                if c == Some('/') {
                    let _ = file.next();
                } else if c == Some(')') {
                    let _ = file.next();
                    let r = VType { types };
                    assert(r.model().types == singles_model(r.types@));
                    return Ok((r, true));
                } else {
                    let r = VType { types };
                    assert(r.model().types == singles_model(r.types@));
                    return Ok((r, false));
                }
            },
            Err(e) => {
                return Err(e);
            },
        }
    }
}

/// Parses a type.
pub fn parse_type(file: &mut File) -> (r: Result<VType, ParseError>)
    requires
        !(pt(old(file).text(), old(file).pos_spec(), false) is Stuck),
    ensures
        final(file).text() == old(file).text(),
        match pt(old(file).text(), old(file).pos_spec(), false) {
            Parsed::Done((m, _), q) => r matches Ok(x) && x.model() == m && final(file).pos_spec() == q,
            Parsed::Failed(k, s, x) => r matches Err(e) && error_is(e, k, s, x) && final(file).pos_spec() == x,
            Parsed::Stuck => false,
        },
{
    match parse_type_adv(file, false) {
        Ok((v, _)) => Ok(v),
        Err(e) => Err(e),
    }
}

/// Parses a single type: `&` and a single type, a tuple `[a b]`, a list
/// `[a ...]`, a function type `fn((args out))`, `thread(t)`, an enum variant
/// `name(t)`, or `bool`, `int`, `float` or `string` in any case. The flag
/// tells whether a `)` closing function arguments was consumed.
pub fn parse_single_type_adv(file: &mut File, in_fn_args: bool) -> (r: Result<(VSingleType, bool), ParseError>)
    requires
        !(pst(old(file).text(), old(file).pos_spec(), in_fn_args) is Stuck),
    ensures
        final(file).text() == old(file).text(),
        single_outcome(pst(old(file).text(), old(file).pos_spec(), in_fn_args), r, final(file).pos_spec()),
    decreases usize::MAX - old(file).pos_spec().current_char_index, 0nat,
{
    file.skip_whitespaces();
    let start = *file.get_pos();
    let c = file.next();
    match c {
        Some(ch) => {
            if ch == '&' {
                match parse_single_type_adv(file, in_fn_args) {
                    Ok((x, closed)) => Ok((VSingleType::Reference(Box::new(x)), closed)),
                    Err(e) => Err(e),
                }
            } else if ch == '[' {
                tuple_rest(file, in_fn_args, start)
            } else {
                let mut name = String::new();
                string_push(&mut name, ch);
                assert(name@ =~= seq![ch]);
                name_rest(file, name, in_fn_args, start)
            }
        },
        None => Err(type_error(1, None, start, *file.get_pos())),
    }
}

/// Parses a single type.
pub fn parse_single_type(file: &mut File) -> (r: Result<VSingleType, ParseError>)
    requires
        !(pst(old(file).text(), old(file).pos_spec(), false) is Stuck),
    ensures
        final(file).text() == old(file).text(),
        match pst(old(file).text(), old(file).pos_spec(), false) {
            Parsed::Done((m, _), q) => r matches Ok(x) && x.model() == m && final(file).pos_spec() == q,
            Parsed::Failed(k, s, x) => r matches Err(e) && error_is(e, k, s, x) && final(file).pos_spec() == x,
            Parsed::Stuck => false,
        },
{
    match parse_single_type_adv(file, false) {
        Ok((v, _)) => Ok(v),
        Err(e) => Err(e),
    }
}

} // verus!
