//! Parsing statements: values, variables and assignments to them, blocks,
//! tuples and lists, function definitions and calls, `if`, `loop`, `for`,
//! `switch`, `match`, enum variants, and chains written with `.`, where
//! `a.f(b)` calls `f` with `a` first and `a.0` takes a fixed index.
use vstd::prelude::*;
use crate::parse::file::{File, FilePosition};
use crate::parse::parse::{ParseError, ParseErrors, Parsed, TypeError, dots_at, lemma_sws, moved, parse_type_adv, pt, sws, sws_ok, trim, trim_string};
use crate::parsing::file::{advance, char_at, has_room, lemma_walk, walk};
use crate::script::code_parsed::{PFunction, PKind, PStatement, PValue, SBlock, SFunction, SStatement, SStatementEnum, VDataEnum, inputs_model, stmts_model, typed_arms_model, arms_model};
use crate::script::type_model::{SingleTypeModel, TypeModel};
use crate::script::val_type::VType;
use crate::lang::run_builtin::{parse_int, parse_int_spec};
use crate::lang::builtins::str_eq;
use crate::text::{append, char_is_whitespace, decimal, is_white_space, push_decimal, string_push};

verus! {

/// What went wrong, as a value.
pub enum PErrKind {
    CannotStart(char),
    ClosingRound,
    ClosingCurly,
    EofInBlock,
    EofInString,
    EofInStatement,
    EofInArgName,
    EofInType,
    EofInsteadOfType,
    InvalidType(Seq<char>),
    FixedIndexing(TypeModel),
    FunctionArgs(Box<PErr>),
    CannotWrap(PKind),
}

/// A parse error as a value: what, where it starts and ends, and what was
/// being parsed.
pub struct PErr {
    pub kind: PErrKind,
    pub location: FilePosition,
    pub end: Option<FilePosition>,
    pub context: Seq<(Seq<char>, Option<(FilePosition, Option<FilePosition>)>)>,
}

pub open spec fn kind_model(k: ParseErrors) -> PErrKind
    decreases k,
{
    match k {
        ParseErrors::StatementCannotStartWith(c) => PErrKind::CannotStart(c),
        ParseErrors::FoundClosingRoundBracketInSingleStatementBlockBeforeAnyStatement => PErrKind::ClosingRound,
        ParseErrors::FoundClosingCurlyBracketInSingleStatementBlockBeforeAnyStatement => PErrKind::ClosingCurly,
        ParseErrors::FoundEofInBlockBeforeStatementOrClosingCurlyBracket => PErrKind::EofInBlock,
        ParseErrors::FoundEofInString => PErrKind::EofInString,
        ParseErrors::FoundEofInStatement => PErrKind::EofInStatement,
        ParseErrors::FoundEofInFunctionArgName => PErrKind::EofInArgName,
        ParseErrors::FoundEofInType => PErrKind::EofInType,
        ParseErrors::FoundEofInsteadOfType => PErrKind::EofInsteadOfType,
        ParseErrors::InvalidType(n) => PErrKind::InvalidType(n@),
        ParseErrors::CannotUseFixedIndexingWithThisType(t) => PErrKind::FixedIndexing(t.model()),
        ParseErrors::ErrorParsingFunctionArgs(b) => PErrKind::FunctionArgs(Box::new(err_model(*b))),
        ParseErrors::CannotWrapWithThisStatement(s) => PErrKind::CannotWrap(s.model()),
    }
}

pub open spec fn context_model(c: Seq<(String, Option<(FilePosition, Option<FilePosition>)>)>) -> Seq<(Seq<char>, Option<(FilePosition, Option<FilePosition>)>)> {
    c.map_values(|x: (String, Option<(FilePosition, Option<FilePosition>)>)| (x.0@, x.1))
}

/// The value of a parse error.
pub open spec fn err_model(e: ParseError) -> PErr
    decreases e,
{
    PErr { kind: kind_model(e.err), location: e.location, end: e.location_end, context: context_model(e.context@) }
}

/// What parsing from a position gives: a value and the position after it,
/// an error and where parsing stopped, or `Stuck` where parsing does not
/// return (a counter would overflow, or a step that must read on did not).
pub enum Step<T> {
    Done(T, FilePosition),
    Failed(PErr, FilePosition),
    Stuck,
}

/// A character that ends a name without being read: `}`, `]`, `)` or `.`.
pub open spec fn is_delim(c: char) -> bool {
    c == '}' || c == ']' || c == ')' || c == '.'
}

pub open spec fn plain(k: PKind) -> PStatement {
    PStatement::plain(k)
}

/// The error `kind` from `location` to `end`, without context.
pub open spec fn perr(kind: PErrKind, location: FilePosition, end: Option<FilePosition>) -> PErr {
    PErr { kind, location, end, context: Seq::empty() }
}

/// `e` with one more entry of context.
pub open spec fn with_ctx(e: PErr, msg: Seq<char>, span: Option<(FilePosition, Option<FilePosition>)>) -> PErr {
    PErr { context: e.context.push((msg, span)), ..e }
}

/// A type error as a parse error.
pub open spec fn type_err(k: TypeError, s: FilePosition, x: FilePosition) -> PErr {
    perr(match k {
        TypeError::EofInType => PErrKind::EofInType,
        TypeError::EofInsteadOfType => PErrKind::EofInsteadOfType,
        TypeError::Invalid(n) => PErrKind::InvalidType(n),
    }, s, Some(x))
}

/// The number of `*` that `s` starts with.
pub open spec fn lead_stars(s: Seq<char>) -> nat
    decreases s.len(),
{
    if s.len() > 0 && s[0] == '*' {
        1 + lead_stars(s.skip(1))
    } else {
        0
    }
}

/// `v`, storing its value to the variable `name` names: `**x` is `x` after
/// two dereferences.
pub open spec fn assign(v: PStatement, name: Seq<char>) -> PStatement {
    PStatement { output_to: Some((name.skip(lead_stars(name) as int), lead_stars(name))), ..v }
}

/// The character a backslash and `c` stand for in a string.
pub open spec fn escaped(c: char) -> char {
    if c == 'n' {
        '\n'
    } else if c == 't' {
        '\t'
    } else {
        c
    }
}

/// The type of a literal.
pub open spec fn value_type(v: PValue) -> TypeModel {
    TypeModel { types: seq![match v {
        PValue::Bool(_) => SingleTypeModel::Bool,
        PValue::Int(_) => SingleTypeModel::Int,
        PValue::Float(_) => SingleTypeModel::Float,
        PValue::Str(_) => SingleTypeModel::String,
    }] }
}

/// `second`, `third`, then `4th`, `5th`, ...: the place of the statement
/// after `len` wrappers.
pub open spec fn ordinal(len: nat) -> Seq<char> {
    if len == 1 {
        "second"@
    } else if len == 2 {
        "third"@
    } else {
        decimal(len + 1) + "th"@
    }
}

/// The context of an error in the wrapper after `len` others, for the
/// statement from `s` to `prev` that it was to wrap.
pub open spec fn chain_ctx(len: nat, s: FilePosition, prev: FilePosition) -> Seq<(Seq<char>, Option<(FilePosition, Option<FilePosition>)>)> {
    (if len > 0 {
        seq![("this is the "@ + ordinal(len) + " wrapping statement in a chain."@, None::<(FilePosition, Option<FilePosition>)>)]
    } else {
        Seq::empty()
    }) + seq![("the statement that was supposed to be wrapped"@, Some((s, Some(prev))))]
}

/// `..` starts at index `i`.
pub open spec fn two_dots(t: Seq<char>, i: int) -> bool {
    0 <= i && i + 2 <= t.len() && t[i] == '.' && t[i + 1] == '.'
}

/// `else ` starts at index `i`.
pub open spec fn else_at(t: Seq<char>, i: int) -> bool {
    0 <= i && i + 5 <= t.len() && t.subrange(i, i + 5) == "else "@
}

/// Reads characters up to white space or the end, both read too.
pub open spec fn word_to_ws(t: Seq<char>, p: FilePosition, buf: Seq<char>) -> Option<(Seq<char>, FilePosition)>
    decreases usize::MAX - p.current_char_index,
{
    if !has_room(p, 1) {
        None
    } else {
        let c = char_at(t, p.current_char_index as int);
        let q = advance(p, c);
        match c {
            Some(ch) => if is_white_space(ch) { Some((buf, q)) } else { word_to_ws(t, q, buf.push(ch)) },
            None => Some((buf, q)),
        }
    }
}

/// Reads `e`, `l` and `s`, and the character after them.
pub open spec fn else_skip(t: Seq<char>, p: FilePosition) -> Option<FilePosition>
    decreases usize::MAX - p.current_char_index,
{
    if !has_room(p, 1) {
        None
    } else {
        let c = char_at(t, p.current_char_index as int);
        let q = advance(p, c);
        if c == Some('e') || c == Some('l') || c == Some('s') { else_skip(t, q) } else { Some(q) }
    }
}

/// Reads the characters after a decimal point, up to white space, a
/// delimiter (not read) or the end (read).
pub open spec fn float_scan(t: Seq<char>, p: FilePosition, pot: Seq<char>) -> Option<(Seq<char>, FilePosition)>
    decreases usize::MAX - p.current_char_index,
{
    if !has_room(p, 1) {
        None
    } else {
        let c = char_at(t, p.current_char_index as int);
        match c {
            Some(x) => if is_white_space(x) || is_delim(x) { Some((pot, p)) } else { float_scan(t, advance(p, c), pot.push(x)) },
            None => Some((pot, advance(p, c))),
        }
    }
}

/// The number of ASCII digits `s` starts with.
pub open spec fn lead_digits(s: Seq<char>) -> nat
    decreases s.len(),
{
    if s.len() > 0 && '0' <= s[0] <= '9' { 1 + lead_digits(s.skip(1)) } else { 0 }
}

/// An exponent's digits: an optional sign and at least one digit.
pub open spec fn exp_digits(r: Seq<char>) -> bool {
    let d = if r.len() > 0 && (r[0] == '+' || r[0] == '-') { r.skip(1) } else { r };
    d.len() > 0 && lead_digits(d) == d.len()
}

/// What may follow `digits.` in a float as `f64`'s parser reads it: more
/// digits, then optionally `e` or `E` and an exponent.
pub open spec fn float_tail(s: Seq<char>) -> bool {
    let k = lead_digits(s) as int;
    k == s.len() || ((s[k] == 'e' || s[k] == 'E') && exp_digits(s.skip(k + 1)))
}

/// How a function argument's name ends: at white space, or at the end of
/// the text, with the positions before and after the last read.
pub enum NameScan {
    Name(Seq<char>, FilePosition),
    Eof(FilePosition, FilePosition),
    Stuck,
}

pub open spec fn arg_name_scan(t: Seq<char>, p: FilePosition, name: Seq<char>) -> NameScan
    decreases usize::MAX - p.current_char_index,
{
    if !has_room(p, 1) {
        NameScan::Stuck
    } else {
        let c = char_at(t, p.current_char_index as int);
        let q = advance(p, c);
        match c {
            Some(ch) => if is_white_space(ch) { NameScan::Name(name, q) } else { arg_name_scan(t, q, name.push(ch)) },
            None => NameScan::Eof(p, q),
        }
    }
}

/// The context of an error in a function's arguments.
pub open spec fn fn_ctx(fs: Option<FilePosition>, q: FilePosition) -> (Seq<char>, Option<(FilePosition, Option<FilePosition>)>) {
    match fs {
        Some(f) => ("the function"@, Some((f, Some(q)))),
        None => ("not a real fn definition"@, None),
    }
}

/// A string's characters after `"`, up to the closing `"`.
pub open spec fn string_spec(t: Seq<char>, p: FilePosition, buf: Seq<char>, s: FilePosition) -> Step<PStatement>
    decreases usize::MAX - p.current_char_index,
{
    if !has_room(p, 1) {
        Step::Stuck
    } else {
        let c = char_at(t, p.current_char_index as int);
        let q = advance(p, c);
        match c {
            Some(ch) => if ch == '\\' {
                if !has_room(q, 1) {
                    Step::Stuck
                } else {
                    let c2 = char_at(t, q.current_char_index as int);
                    match c2 {
                        Some(e) => string_spec(t, advance(q, c2), buf.push(escaped(e)), s),
                        None => string_spec(t, advance(q, c2), buf, s),
                    }
                }
            } else if ch == '"' {
                Step::Done(plain(PKind::Value(PValue::Str(buf))), q)
            } else {
                string_spec(t, q, buf.push(ch), s)
            },
            None => Step::Failed(perr(PErrKind::EofInString, s, Some(q)), q),
        }
    }
}

/// An integer, a float or a variable, from the name `st` that ended with
/// `ch`; `q1` is after the white space that followed.
pub open spec fn value_or_var(t: Seq<char>, q1: FilePosition, st: Seq<char>, ch: char) -> Step<(PStatement, bool)> {
    match parse_int_spec(st) {
        Some(n) if isize::MIN <= n <= isize::MAX => if ch == '.' {
            if !has_room(q1, 1) {
                Step::Stuck
            } else {
                match float_scan(t, advance(q1, char_at(t, q1.current_char_index as int)), Seq::empty()) {
                    None => Step::Stuck,
                    Some((pot, q3)) => if float_tail(pot) {
                        Step::Done((plain(PKind::Value(PValue::Float(st + seq!['.'] + pot))), true), q3)
                    } else {
                        Step::Done((plain(PKind::Value(PValue::Int(n as isize))), true), q1)
                    },
                }
            }
        } else {
            Step::Done((plain(PKind::Value(PValue::Int(n as isize))), true), q1)
        },
        _ => if st.len() > 0 && st[0] == '&' {
            Step::Done((plain(PKind::Variable(st.skip(1), true)), true), q1)
        } else {
            Step::Done((plain(PKind::Variable(st, false)), true), q1)
        },
    }
}

/// The first part of a statement at `s`, after white space: a block, a
/// tuple or list, a string, or what starts with a name; the flag tells
/// whether the `.` chain may follow.
pub open spec fn head_spec(t: Seq<char>, s: FilePosition) -> Step<(PStatement, bool)>
    decreases usize::MAX - s.current_char_index, 4nat, usize::MAX - s.current_char_index + 1,
{
    let c = char_at(t, s.current_char_index as int);
    if c == Some('{') || c == Some('[') {
        if !has_room(s, 1) {
            Step::Stuck
        } else if c == Some('{') {
            match block_loop_spec(t, advance(s, c), false, true, false, false, Seq::empty()) {
                Step::Done(b, q) => Step::Done((plain(PKind::Block(b)), true), q),
                Step::Failed(e, q) => Step::Failed(e, q),
                Step::Stuck => Step::Stuck,
            }
        } else {
            match items_spec(t, advance(s, c), Seq::empty()) {
                Step::Done(x, q) => Step::Done((x, true), q),
                Step::Failed(e, q) => Step::Failed(e, q),
                Step::Stuck => Step::Stuck,
            }
        }
    } else if c == Some('"') {
        if !has_room(s, 1) {
            Step::Stuck
        } else {
            match string_spec(t, advance(s, c), Seq::empty(), s) {
                Step::Done(x, q) => Step::Done((x, true), q),
                Step::Failed(e, q) => Step::Failed(e, q),
                Step::Stuck => Step::Stuck,
            }
        }
    } else {
        word_spec(t, s, Seq::empty(), s)
    }
}

/// A statement from `p`: white space, then a block, a tuple or list, a
/// string, or a statement that starts with a name; then, unless
/// `chain` (the statement wraps another one), the `.` chain after it.
pub open spec fn statement_spec(t: Seq<char>, p: FilePosition, chain: bool) -> Step<PStatement>
    decreases usize::MAX - p.current_char_index, 5nat, 0nat,
{
    if !sws_ok(t, p) {
        Step::Stuck
    } else {
        let s = sws(t, p);
        proof { lemma_sws(t, p); }
        match head_spec(t, s) {
            Step::Done((x, through), q) => if !through {
                Step::Done(x, q)
            } else if !moved(p, q) {
                Step::Stuck
            } else {
                tail_spec(t, q, x, chain, s)
            },
            Step::Failed(e, q) => Step::Failed(e, q),
            Step::Stuck => Step::Stuck,
        }
    }
}

/// After a statement `out` that started at `s` and ends at `q`: white
/// space, one `.` unless `..` follows, and the chain of wrappers.
pub open spec fn tail_spec(t: Seq<char>, q: FilePosition, out: PStatement, chain: bool, s: FilePosition) -> Step<PStatement>
    decreases usize::MAX - q.current_char_index, 7nat, 0nat,
{
    if !sws_ok(t, q) {
        Step::Stuck
    } else {
        let q1 = sws(t, q);
        proof { lemma_sws(t, q); }
        let i = q1.current_char_index as int;
        if two_dots(t, i) {
            Step::Done(out, q1)
        } else {
            let dot = char_at(t, i) == Some('.');
            if dot && !has_room(q1, 1) {
                Step::Stuck
            } else {
                let q2 = if dot { advance(q1, Some('.')) } else { q1 };
                if chain {
                    Step::Done(out, q2)
                } else {
                    chain_spec(t, q2, out, 0, q, s)
                }
            }
        }
    }
}

/// While the character before `q` is a `.`: the next wrapper, a function
/// call that takes `out` as its first argument or an integer that indexes
/// it.
pub open spec fn chain_spec(t: Seq<char>, q: FilePosition, out: PStatement, len: nat, prev: FilePosition, s: FilePosition) -> Step<PStatement>
    decreases usize::MAX - q.current_char_index, 6nat, 0nat,
{
    let i: int = if q.current_char_index == 0 { 0 } else { q.current_char_index - 1 };
    if char_at(t, i) != Some('.') {
        Step::Done(out, q)
    } else {
        match statement_spec(t, q, true) {
            Step::Done(w, q3) => if !moved(q, q3) {
                Step::Stuck
            } else {
                match *w.statement {
                    PKind::FunctionCall(f, args) => chain_spec(t, q3, plain(PKind::FunctionCall(f, seq![out] + args)), len + 1, q3, s),
                    PKind::Value(v) => match v {
                        PValue::Int(n) => chain_spec(t, q3, plain(PKind::IndexFixed(out, n as usize)), len + 1, q3, s),
                        _ => Step::Failed(PErr { kind: PErrKind::FixedIndexing(value_type(v)), location: q, end: Some(q3), context: chain_ctx(len, s, prev) }, q3),
                    },
                    other => Step::Failed(PErr { kind: PErrKind::CannotWrap(other), location: q, end: Some(q3), context: chain_ctx(len, s, prev) }, q3),
                }
            },
            Step::Failed(e, x) => Step::Failed(e, x),
            Step::Stuck => Step::Stuck,
        }
    }
}

/// The items of `[...]`, up to `]` (a tuple) or `...]` (a list).
pub open spec fn items_spec(t: Seq<char>, p: FilePosition, items: Seq<PStatement>) -> Step<PStatement>
    decreases usize::MAX - p.current_char_index, 6nat, 0nat,
{
    if !sws_ok(t, p) {
        Step::Stuck
    } else {
        let p1 = sws(t, p);
        proof { lemma_sws(t, p); }
        if char_at(t, p1.current_char_index as int) == Some(']') {
            if !has_room(p1, 1) { Step::Stuck } else { Step::Done(plain(PKind::Tuple(items)), advance(p1, Some(']'))) }
        } else if dots_at(t, p1.current_char_index as int) {
            if !has_room(p1, 4) { Step::Stuck } else { Step::Done(plain(PKind::List(items)), walk(t, p1, 4)) }
        } else {
            match statement_spec(t, p1, false) {
                Step::Done(x, q) => if !moved(p, q) { Step::Stuck } else { items_spec(t, q, items.push(x)) },
                Step::Failed(e, x) => Step::Failed(e, x),
                Step::Stuck => Step::Stuck,
            }
        }
    }
}

/// A statement that starts with a name, read up to `:`, white space, a
/// delimiter or `(`; the flag tells whether the `.` chain may follow.
pub open spec fn word_spec(t: Seq<char>, p: FilePosition, buf: Seq<char>, s: FilePosition) -> Step<(PStatement, bool)>
    decreases usize::MAX - s.current_char_index, 4nat, usize::MAX - p.current_char_index,
{
    let c = char_at(t, p.current_char_index as int);
    if c matches Some(ch) && is_delim(ch) {
        word_end_spec(t, p, buf, s, c.unwrap())
    } else if !has_room(p, 1) {
        Step::Stuck
    } else {
        let q = advance(p, c);
        match c {
            Some(ch) => if ch == ':' {
                colon_spec(t, q, buf, s)
            } else if is_white_space(ch) {
                word_end_spec(t, q, buf, s, ch)
            } else if ch == '(' {
                call_spec(t, q, buf, s)
            } else {
                word_spec(t, q, buf.push(ch), s)
            },
            None => Step::Failed(perr(PErrKind::EofInStatement, s, Some(q)), q),
        }
    }
}

/// A name that ended with `ch`: an assignment `name = statement`, or what
/// the name stands for.
pub open spec fn word_end_spec(t: Seq<char>, q: FilePosition, buf: Seq<char>, s: FilePosition, ch: char) -> Step<(PStatement, bool)>
    decreases usize::MAX - s.current_char_index, 3nat, 0nat,
{
    if trim(buf).len() == 0 {
        Step::Failed(perr(PErrKind::CannotStart(ch), q, None), q)
    } else if !sws_ok(t, q) {
        Step::Stuck
    } else {
        let q1 = sws(t, q);
        if char_at(t, q1.current_char_index as int) == Some('=') {
            if !has_room(q1, 1) {
                Step::Stuck
            } else {
                let qe = advance(q1, Some('='));
                let st = trim(buf);
                if !moved(s, qe) {
                    Step::Stuck
                } else {
                    match statement_spec(t, qe, false) {
                        Step::Done(v, qd) => Step::Done((assign(v, st), true), qd),
                        Step::Failed(e, x) => Step::Failed(with_ctx(e, "statement was supposed to be assigned to variable "@ + st, Some((s, Some(qe)))), x),
                        Step::Stuck => Step::Stuck,
                    }
                }
            }
        } else {
            keyword_spec(t, q1, trim(buf), s, ch)
        }
    }
}

/// What a name `st` followed by white space stands for.
pub open spec fn keyword_spec(t: Seq<char>, q1: FilePosition, st: Seq<char>, s: FilePosition, ch: char) -> Step<(PStatement, bool)>
    decreases usize::MAX - s.current_char_index, 2nat, 0nat,
{
    if !moved(s, q1) {
        Step::Stuck
    } else if st == "fn"@ {
        if !sws_ok(t, q1) {
            Step::Stuck
        } else {
            proof { lemma_sws(t, q1); }
            fn_name_spec(t, sws(t, q1), Seq::empty(), s)
        }
    } else if st == "if"@ {
        if_spec(t, q1)
    } else if st == "for"@ {
        for_spec(t, q1)
    } else if st == "while"@ || st == "loop"@ {
        match statement_spec(t, q1, false) {
            Step::Done(b, q) => Step::Done((plain(PKind::Loop(b)), true), q),
            Step::Failed(e, x) => Step::Failed(e, x),
            Step::Stuck => Step::Stuck,
        }
    } else if st == "switch"@ || st == "switch!"@ {
        switch_spec(t, q1, st == "switch!"@)
    } else if st == "match"@ {
        match_spec(t, q1)
    } else if st == "true"@ {
        Step::Done((plain(PKind::Value(PValue::Bool(true))), true), q1)
    } else if st == "false"@ {
        Step::Done((plain(PKind::Value(PValue::Bool(false))), true), q1)
    } else {
        value_or_var(t, q1, st, ch)
    }
}

/// `fn name(args) body`: the name up to `(`.
pub open spec fn fn_name_spec(t: Seq<char>, p: FilePosition, name: Seq<char>, s: FilePosition) -> Step<(PStatement, bool)>
    decreases usize::MAX - p.current_char_index, 1nat, 0nat,
{
    if !has_room(p, 1) {
        Step::Stuck
    } else {
        let c = char_at(t, p.current_char_index as int);
        let q = advance(p, c);
        if c.is_some() && c != Some('(') {
            fn_name_spec(t, q, name.push(c.unwrap()), s)
        } else {
            match function_spec(t, q, Some(s)) {
                Step::Done(f, q2) => Step::Done((plain(PKind::FunctionDefinition(Some(trim(name)), f)), true), q2),
                Step::Failed(e, x) => Step::Failed(e, x),
                Step::Stuck => Step::Stuck,
            }
        }
    }
}

/// `if condition then`, and `else other` where `else ` follows.
pub open spec fn if_spec(t: Seq<char>, p: FilePosition) -> Step<(PStatement, bool)>
    decreases usize::MAX - p.current_char_index, 8nat, 0nat,
{
    match statement_spec(t, p, false) {
        Step::Done(c, q) => if !moved(p, q) {
            Step::Stuck
        } else {
            match statement_spec(t, q, false) {
                Step::Done(y, q2) => if !sws_ok(t, q2) {
                    Step::Stuck
                } else {
                    let q3 = sws(t, q2);
                    if else_at(t, q3.current_char_index as int) {
                        match else_skip(t, q3) {
                            None => Step::Stuck,
                            Some(q4) => if !moved(p, q4) {
                                Step::Stuck
                            } else {
                                match statement_spec(t, q4, false) {
                                    Step::Done(n, q5) => Step::Done((plain(PKind::If(c, y, Some(n))), true), q5),
                                    Step::Failed(e, x) => Step::Failed(e, x),
                                    Step::Stuck => Step::Stuck,
                                }
                            },
                        }
                    } else {
                        Step::Done((plain(PKind::If(c, y, None)), true), q3)
                    }
                },
                Step::Failed(e, x) => Step::Failed(e, x),
                Step::Stuck => Step::Stuck,
            }
        },
        Step::Failed(e, x) => Step::Failed(e, x),
        Step::Stuck => Step::Stuck,
    }
}

/// `for name iterable body`.
pub open spec fn for_spec(t: Seq<char>, p: FilePosition) -> Step<(PStatement, bool)>
    decreases usize::MAX - p.current_char_index, 8nat, 0nat,
{
    if !sws_ok(t, p) {
        Step::Stuck
    } else {
        match word_to_ws(t, sws(t, p), Seq::empty()) {
            None => Step::Stuck,
            Some((name, q)) => if !moved(p, q) {
                Step::Stuck
            } else {
                match statement_spec(t, q, false) {
                    Step::Done(a, q2) => if !moved(p, q2) {
                        Step::Stuck
                    } else {
                        match statement_spec(t, q2, false) {
                            Step::Done(b, q3) => Step::Done((plain(PKind::For(name, a, b)), true), q3),
                            Step::Failed(e, x) => Step::Failed(e, x),
                            Step::Stuck => Step::Stuck,
                        }
                    },
                    Step::Failed(e, x) => Step::Failed(e, x),
                    Step::Stuck => Step::Stuck,
                }
            },
        }
    }
}

/// `switch var { type statement ... }` (`switch!` forces every type).
pub open spec fn switch_spec(t: Seq<char>, p: FilePosition, force: bool) -> Step<(PStatement, bool)>
    decreases usize::MAX - p.current_char_index, 8nat, 0nat,
{
    match word_to_ws(t, p, Seq::empty()) {
        None => Step::Stuck,
        Some((what, q)) => if !sws_ok(t, q) {
            Step::Stuck
        } else {
            let q1 = sws(t, q);
            if !has_room(q1, 1) {
                Step::Stuck
            } else {
                let q2 = advance(q1, char_at(t, q1.current_char_index as int));
                if !moved(p, q2) {
                    Step::Stuck
                } else {
                    match switch_cases_spec(t, q2, Seq::empty()) {
                        Step::Done(cases, q3) => Step::Done((plain(PKind::Switch(what, cases, force)), true), q3),
                        Step::Failed(e, x) => Step::Failed(e, x),
                        Step::Stuck => Step::Stuck,
                    }
                }
            }
        },
    }
}

/// The cases of a `switch`, up to `}`.
pub open spec fn switch_cases_spec(t: Seq<char>, p: FilePosition, cases: Seq<(TypeModel, PStatement)>) -> Step<Seq<(TypeModel, PStatement)>>
    decreases usize::MAX - p.current_char_index, 6nat, 0nat,
{
    if !sws_ok(t, p) {
        Step::Stuck
    } else {
        let p1 = sws(t, p);
        if char_at(t, p1.current_char_index as int) == Some('}') {
            if !has_room(p1, 1) { Step::Stuck } else { Step::Done(cases, advance(p1, Some('}'))) }
        } else {
            match pt(t, p1, false) {
                Parsed::Done((ty, _), qa) => if !moved(p, qa) {
                    Step::Stuck
                } else {
                    match statement_spec(t, qa, false) {
                        Step::Done(x, qb) => if !moved(p, qb) { Step::Stuck } else { switch_cases_spec(t, qb, cases.push((ty, x))) },
                        Step::Failed(e, x) => Step::Failed(e, x),
                        Step::Stuck => Step::Stuck,
                    }
                },
                Parsed::Failed(k, s2, x) => Step::Failed(type_err(k, s2, x), x),
                Parsed::Stuck => Step::Stuck,
            }
        }
    }
}

/// `match var { condition action ... }`.
pub open spec fn match_spec(t: Seq<char>, p: FilePosition) -> Step<(PStatement, bool)>
    decreases usize::MAX - p.current_char_index, 8nat, 0nat,
{
    match word_to_ws(t, p, Seq::empty()) {
        None => Step::Stuck,
        Some((what, q)) => if !sws_ok(t, q) {
            Step::Stuck
        } else {
            let q1 = sws(t, q);
            if !has_room(q1, 1) {
                Step::Stuck
            } else {
                let q2 = advance(q1, char_at(t, q1.current_char_index as int));
                if !moved(p, q2) {
                    Step::Stuck
                } else {
                    match match_cases_spec(t, q2, Seq::empty()) {
                        Step::Done(cases, q3) => Step::Done((plain(PKind::Match(what, cases)), true), q3),
                        Step::Failed(e, x) => Step::Failed(e, x),
                        Step::Stuck => Step::Stuck,
                    }
                }
            }
        },
    }
}

/// The cases of a `match`, up to `}`.
pub open spec fn match_cases_spec(t: Seq<char>, p: FilePosition, cases: Seq<(PStatement, PStatement)>) -> Step<Seq<(PStatement, PStatement)>>
    decreases usize::MAX - p.current_char_index, 6nat, 0nat,
{
    if !sws_ok(t, p) {
        Step::Stuck
    } else {
        let p1 = sws(t, p);
        proof { lemma_sws(t, p); }
        if char_at(t, p1.current_char_index as int) == Some('}') {
            if !has_room(p1, 1) { Step::Stuck } else { Step::Done(cases, advance(p1, Some('}'))) }
        } else {
            match statement_spec(t, p1, false) {
                Step::Done(a, qa) => if !moved(p, qa) {
                    Step::Stuck
                } else {
                    match statement_spec(t, qa, false) {
                        Step::Done(b, qb) => if !moved(p, qb) { Step::Stuck } else { match_cases_spec(t, qb, cases.push((a, b))) },
                        Step::Failed(e, x) => Step::Failed(e, x),
                        Step::Stuck => Step::Stuck,
                    }
                },
                Step::Failed(e, x) => Step::Failed(e, x),
                Step::Stuck => Step::Stuck,
            }
        }
    }
}

/// After `name:`: `name::type = statement` assigns with a forced type;
/// otherwise the statement is an enum variant `name: statement`.
pub open spec fn colon_spec(t: Seq<char>, q: FilePosition, buf: Seq<char>, s: FilePosition) -> Step<(PStatement, bool)>
    decreases usize::MAX - s.current_char_index, 3nat, 0nat,
{
    if !moved(s, q) {
        Step::Stuck
    } else if char_at(t, q.current_char_index as int) == Some(':') {
        if !has_room(q, 1) {
            Step::Stuck
        } else {
            let q1 = advance(q, Some(':'));
            let tr = pt(t, q1, false);
            let qa = match tr {
                Parsed::Done(_, x) => x,
                Parsed::Failed(_, _, x) => x,
                Parsed::Stuck => q1,
            };
            if tr is Stuck || !sws_ok(t, qa) {
                Step::Stuck
            } else {
                let qb = sws(t, qa);
                if !has_room(qb, 1) {
                    Step::Stuck
                } else {
                    let c = char_at(t, qb.current_char_index as int);
                    let qc = advance(qb, c);
                    if c == Some('=') {
                        let st = trim(buf);
                        if !moved(s, qc) {
                            Step::Stuck
                        } else {
                            match statement_spec(t, qc, false) {
                                Step::Done(v, qd) => match tr {
                                    Parsed::Done((ty, _), _) => Step::Done((PStatement { force: Some(ty), ..assign(v, st) }, true), qd),
                                    Parsed::Failed(k, s2, x) => Step::Failed(with_ctx(type_err(k, s2, x),
                                        "interpreted this as an assignment to a variable with the format <var>::<var_type> = <statement>"@,
                                        Some((s, Some(qc)))), qd),
                                    Parsed::Stuck => Step::Stuck,
                                },
                                Step::Failed(e, x) => Step::Failed(with_ctx(e, "statement was supposed to be assigned to variable "@ + st, Some((s, Some(qc)))), x),
                                Step::Stuck => Step::Stuck,
                            }
                        }
                    } else {
                        variant_spec(t, q1, buf, s)
                    }
                }
            }
        }
    } else {
        variant_spec(t, q, buf, s)
    }
}

/// `name: statement`, an enum variant, from `q` after the colon.
pub open spec fn variant_spec(t: Seq<char>, q: FilePosition, buf: Seq<char>, s: FilePosition) -> Step<(PStatement, bool)>
    decreases usize::MAX - s.current_char_index, 2nat, 0nat,
{
    if !moved(s, q) {
        Step::Stuck
    } else {
        match statement_spec(t, q, false) {
            Step::Done(v, qd) => Step::Done((plain(PKind::EnumVariant(buf, v)), false), qd),
            Step::Failed(e, x) => Step::Failed(e, x),
            Step::Stuck => Step::Stuck,
        }
    }
}

/// A name followed by `(`: a function without a name where the name is
/// empty, otherwise a call with the statements up to `)` as arguments.
pub open spec fn call_spec(t: Seq<char>, q: FilePosition, buf: Seq<char>, s: FilePosition) -> Step<(PStatement, bool)>
    decreases usize::MAX - s.current_char_index, 3nat, 0nat,
{
    if !moved(s, q) {
        Step::Stuck
    } else if trim(buf).len() == 0 {
        match function_spec(t, q, Some(s)) {
            Step::Done(f, q2) => Step::Done((plain(PKind::FunctionDefinition(None, f)), true), q2),
            Step::Failed(e, x) => Step::Failed(e, x),
            Step::Stuck => Step::Stuck,
        }
    } else {
        match block_spec(t, q, Some(false), false, true, false) {
            Step::Done(b, q2) => Step::Done((plain(PKind::FunctionCall(trim(buf), b)), true), q2),
            Step::Failed(e, x) => Step::Failed(perr(PErrKind::FunctionArgs(Box::new(e)), s, Some(x)), x),
            Step::Stuck => Step::Stuck,
        }
    }
}

/// A block: with `single` unset, `{` starts a block of many statements and
/// anything else is one statement. The flags tell whether `}`, `)` or the
/// end of the text close it.
pub open spec fn block_spec(t: Seq<char>, p: FilePosition, single: Option<bool>, tcb: bool, tcn: bool, teof: bool) -> Step<Seq<PStatement>>
    decreases usize::MAX - p.current_char_index, 7nat, 0nat,
{
    if !sws_ok(t, p) {
        Step::Stuck
    } else {
        let p1 = sws(t, p);
        proof { lemma_sws(t, p); }
        match single {
            Some(v) => block_loop_spec(t, p1, v, tcb, tcn, teof, Seq::empty()),
            None => if char_at(t, p1.current_char_index as int) == Some('{') {
                if !has_room(p1, 1) {
                    Step::Stuck
                } else {
                    block_loop_spec(t, advance(p1, Some('{')), false, tcb, tcn, teof, Seq::empty())
                }
            } else {
                block_loop_spec(t, p1, true, tcb, tcn, teof, Seq::empty())
            },
        }
    }
}

/// The statements of a block after `sts`.
pub open spec fn block_loop_spec(t: Seq<char>, p: FilePosition, single: bool, tcb: bool, tcn: bool, teof: bool, sts: Seq<PStatement>) -> Step<Seq<PStatement>>
    decreases usize::MAX - p.current_char_index, 6nat, 0nat,
{
    if !sws_ok(t, p) {
        Step::Stuck
    } else {
        let p1 = sws(t, p);
        proof { lemma_sws(t, p); }
        let c = char_at(t, p1.current_char_index as int);
        if c == Some(')') && tcn {
            if single {
                Step::Failed(perr(PErrKind::ClosingRound, p1, Some(p1)), p1)
            } else if !has_room(p1, 1) {
                Step::Stuck
            } else {
                Step::Done(sts, advance(p1, c))
            }
        } else if c == Some('}') && tcb {
            if single {
                Step::Failed(perr(PErrKind::ClosingCurly, p1, Some(p1)), p1)
            } else if !has_room(p1, 1) {
                Step::Stuck
            } else {
                Step::Done(sts, advance(p1, c))
            }
        } else if c is None && teof {
            Step::Done(sts, p1)
        } else if c is None {
            Step::Failed(perr(PErrKind::EofInBlock, p1, Some(p1)), p1)
        } else {
            match statement_spec(t, p1, false) {
                Step::Done(x, q) => if char_at(t, q.current_char_index as int) == Some(')') && tcn {
                    if !has_room(q, 1) { Step::Stuck } else { Step::Done(sts.push(x), advance(q, Some(')'))) }
                } else if single {
                    Step::Done(sts.push(x), q)
                } else if !moved(p, q) {
                    Step::Stuck
                } else {
                    block_loop_spec(t, q, single, tcb, tcn, teof, sts.push(x))
                },
                Step::Failed(e, x) => Step::Failed(e, x),
                Step::Stuck => Step::Stuck,
            }
        }
    }
}

/// A function after its `(`: `name type` arguments up to `)`, then its
/// body; `fs` is where its definition started.
pub open spec fn function_spec(t: Seq<char>, p: FilePosition, fs: Option<FilePosition>) -> Step<PFunction>
    decreases usize::MAX - p.current_char_index, 9nat, 0nat,
{
    if !sws_ok(t, p) {
        Step::Stuck
    } else {
        let p1 = sws(t, p);
        proof { lemma_sws(t, p); }
        if char_at(t, p1.current_char_index as int) == Some(')') {
            if !has_room(p1, 1) {
                Step::Stuck
            } else {
                match block_spec(t, advance(p1, Some(')')), None, true, false, false) {
                    Step::Done(b, q) => Step::Done(PFunction { inputs: Seq::empty(), block: b }, q),
                    Step::Failed(e, x) => Step::Failed(e, x),
                    Step::Stuck => Step::Stuck,
                }
            }
        } else {
            args_spec(t, p1, Seq::empty(), fs)
        }
    }
}

/// A function's arguments after `args`, then its body.
pub open spec fn args_spec(t: Seq<char>, p: FilePosition, args: Seq<(Seq<char>, TypeModel)>, fs: Option<FilePosition>) -> Step<PFunction>
    decreases usize::MAX - p.current_char_index, 8nat, 0nat,
{
    match arg_name_scan(t, p, Seq::empty()) {
        NameScan::Stuck => Step::Stuck,
        NameScan::Eof(b, q) => Step::Failed(PErr { kind: PErrKind::EofInArgName, location: b, end: Some(q), context: seq![fn_ctx(fs, q)] }, q),
        NameScan::Name(name, q) => match pt(t, q, true) {
            Parsed::Done((ty, brk), qa) => if !moved(p, qa) {
                Step::Stuck
            } else if brk {
                match block_spec(t, qa, None, true, false, false) {
                    Step::Done(b, q2) => Step::Done(PFunction { inputs: args.push((name, ty)), block: b }, q2),
                    Step::Failed(e, x) => Step::Failed(e, x),
                    Step::Stuck => Step::Stuck,
                }
            } else {
                args_spec(t, qa, args.push((name, ty)), fs)
            },
            Parsed::Failed(k, s2, x) => Step::Failed(type_err(k, s2, x), x),
            Parsed::Stuck => Step::Stuck,
        },
    }
}


/// The result `r`, with the file left at `fp`, is what `o` says.
pub open spec fn stmt_outcome(o: Step<PStatement>, r: Result<SStatement, ParseError>, fp: FilePosition) -> bool {
    match o {
        Step::Done(m, q) => r matches Ok(x) && x.model() == m && fp == q,
        Step::Failed(e, q) => r matches Err(x) && err_model(x) == e && fp == q,
        Step::Stuck => false,
    }
}

pub open spec fn pair_outcome(o: Step<(PStatement, bool)>, r: Result<(SStatement, bool), ParseError>, fp: FilePosition) -> bool {
    match o {
        Step::Done((m, b), q) => r matches Ok((x, c)) && x.model() == m && c == b && fp == q,
        Step::Failed(e, q) => r matches Err(x) && err_model(x) == e && fp == q,
        Step::Stuck => false,
    }
}

pub open spec fn block_outcome(o: Step<Seq<PStatement>>, r: Result<Vec<SStatement>, ParseError>, fp: FilePosition) -> bool {
    match o {
        Step::Done(m, q) => r matches Ok(x) && stmts_model(x@) == m && fp == q,
        Step::Failed(e, q) => r matches Err(x) && err_model(x) == e && fp == q,
        Step::Stuck => false,
    }
}

pub open spec fn fn_outcome(o: Step<PFunction>, r: Result<SFunction, ParseError>, fp: FilePosition) -> bool {
    match o {
        Step::Done(m, q) => r matches Ok(x) && x.model() == m && fp == q,
        Step::Failed(e, q) => r matches Err(x) && err_model(x) == e && fp == q,
        Step::Stuck => false,
    }
}

pub open spec fn switch_outcome(o: Step<Seq<(TypeModel, PStatement)>>, r: Result<Vec<(VType, SStatement)>, ParseError>, fp: FilePosition) -> bool {
    match o {
        Step::Done(m, q) => r matches Ok(x) && typed_arms_model(x@) == m && fp == q,
        Step::Failed(e, q) => r matches Err(x) && err_model(x) == e && fp == q,
        Step::Stuck => false,
    }
}

pub open spec fn match_outcome(o: Step<Seq<(PStatement, PStatement)>>, r: Result<Vec<(SStatement, SStatement)>, ParseError>, fp: FilePosition) -> bool {
    match o {
        Step::Done(m, q) => r matches Ok(x) && arms_model(x@) == m && fp == q,
        Step::Failed(e, q) => r matches Err(x) && err_model(x) == e && fp == q,
        Step::Stuck => false,
    }
}

/// A parse error without context.
fn mk_err(err: ParseErrors, location: FilePosition, location_end: Option<FilePosition>) -> (e: ParseError)
    ensures
        err_model(e) == perr(kind_model(err), location, location_end),
{
    let e = ParseError { err, location, location_end, context: Vec::new() };
    assert(context_model(e.context@) =~= Seq::empty());
    e
}

/// `e` with one more entry of context.
fn push_ctx(e: ParseError, msg: String, span: Option<(FilePosition, Option<FilePosition>)>) -> (r: ParseError)
    ensures
        err_model(r) == with_ctx(err_model(e), msg@, span),
{
    let ghost m = msg@;
    let mut e = e;
    let ghost c0 = e.context@;
    e.context.push((msg, span));
    assert(context_model(e.context@) =~= context_model(c0).push((m, span)));
    e
}

/// A type error from the type parser is the same error as a value.
proof fn lemma_type_err(e: ParseError, k: TypeError, s: FilePosition, x: FilePosition)
    requires
        crate::parse::parse::error_is(e, k, s, x),
    ensures
        err_model(e) == type_err(k, s, x),
{
    assert(context_model(e.context@) =~= Seq::empty());
}

/// `statement was supposed to be assigned to variable ` and the name.
fn assign_msg(st: &String) -> (r: String)
    ensures
        r@ == "statement was supposed to be assigned to variable "@ + st@,
{
    let mut m = String::new();
    append(&mut m, "statement was supposed to be assigned to variable ");
    append(&mut m, st.as_str());
    m
}

/// The number of `*` that `s` starts with.
fn count_stars(s: &String) -> (r: usize)
    ensures
        r == lead_stars(s@),
        r <= s@.len(),
{
    let cs = crate::text::string_chars(s.as_str());
    let mut i: usize = 0;
    while i < cs.len() && cs[i] == '*'
        invariant
            i <= cs@.len(),
            cs@ == s@,
            forall|j: int| 0 <= j < i ==> cs@[j] == '*',
        decreases cs@.len() - i,
    {
        i += 1;
    }
    proof { lemma_lead_stars(cs@, i as nat); }
    i
}

proof fn lemma_lead_stars(s: Seq<char>, i: nat)
    requires
        i <= s.len(),
        forall|j: int| 0 <= j < i ==> s[j] == '*',
        i == s.len() || s[i as int] != '*',
    ensures
        lead_stars(s) == i,
    decreases i,
{
    if i > 0 {
        lemma_lead_stars(s.skip(1), (i - 1) as nat);
        assert forall|j: int| 0 <= j < i - 1 implies s.skip(1)[j] == '*' by {
            assert(s.skip(1)[j] == s[j + 1]);
        }
    }
}

/// `v`, storing its value to the variable `st` names.
fn assign_x(v: SStatement, st: &String) -> (r: SStatement)
    ensures
        r.model() == assign(v.model(), st@),
{
    let d = count_stars(st);
    let cs = crate::text::string_chars(st.as_str());
    let name = crate::text::chars_to_string(&cs, d, cs.len());
    assert(cs@.subrange(d as int, cs@.len() as int) =~= st@.skip(d as int));
    v.output_to(name, d)
}

/// A string's characters after `"`, as [`string_spec`] says.
fn string_x(file: &mut File, s: FilePosition) -> (r: Result<SStatement, ParseError>)
    requires
        !(string_spec(old(file).text(), old(file).pos_spec(), Seq::empty(), s) is Stuck),
    ensures
        final(file).text() == old(file).text(),
        stmt_outcome(string_spec(old(file).text(), old(file).pos_spec(), Seq::empty(), s), r, final(file).pos_spec()),
{
    let ghost t = file.text();
    let ghost res = string_spec(t, file.pos_spec(), Seq::empty(), s);
    let mut buf = String::new();
    loop
        invariant
            file.text() == t,
            t == old(file).text(),
            res == string_spec(old(file).text(), old(file).pos_spec(), Seq::empty(), s),
            string_spec(t, file.pos_spec(), buf@, s) == res,
            !(res is Stuck),
        decreases usize::MAX - file.pos_spec().current_char_index,
    {
        let c = file.next();
        match c {
            Some(ch) => {
                if ch == '\\' {
                    let c2 = file.next();
                    match c2 {
                        Some(e) => {
                            let x = if e == 'n' { '\n' } else if e == 't' { '\t' } else { e };
                            string_push(&mut buf, x);
                        },
                        None => {},
                    }
                } else if ch == '"' {
                    return Ok(SStatementEnum::Value(VDataEnum::String(buf)).to());
                } else {
                    string_push(&mut buf, ch);
                }
            },
            None => {
                return Err(mk_err(ParseErrors::FoundEofInString, s, Some(*file.get_pos())));
            },
        }
    }
}


/// Reads up to white space or the end, as [`word_to_ws`] says.
fn word_to_ws_x(file: &mut File) -> (r: String)
    requires
        word_to_ws(old(file).text(), old(file).pos_spec(), Seq::empty()) is Some,
    ensures
        final(file).text() == old(file).text(),
        word_to_ws(old(file).text(), old(file).pos_spec(), Seq::empty()) == Some((r@, final(file).pos_spec())),
{
    let ghost t = file.text();
    let ghost res = word_to_ws(t, file.pos_spec(), Seq::empty());
    let mut buf = String::new();
    loop
        invariant
            file.text() == t,
            t == old(file).text(),
            res == word_to_ws(old(file).text(), old(file).pos_spec(), Seq::empty()),
            word_to_ws(t, file.pos_spec(), buf@) == res,
            res is Some,
        decreases usize::MAX - file.pos_spec().current_char_index,
    {
        match file.next() {
            Some(ch) => {
                if char_is_whitespace(ch) {
                    return buf;
                }
                string_push(&mut buf, ch);
            },
            None => {
                return buf;
            },
        }
    }
}

/// Reads `e`, `l` and `s` and the character after them, as [`else_skip`] says.
fn else_skip_x(file: &mut File)
    requires
        else_skip(old(file).text(), old(file).pos_spec()) is Some,
    ensures
        final(file).text() == old(file).text(),
        else_skip(old(file).text(), old(file).pos_spec()) == Some(final(file).pos_spec()),
{
    let ghost t = file.text();
    let ghost res = else_skip(t, file.pos_spec());
    loop
        invariant
            file.text() == t,
            t == old(file).text(),
            res == else_skip(old(file).text(), old(file).pos_spec()),
            else_skip(t, file.pos_spec()) == res,
            res is Some,
        decreases usize::MAX - file.pos_spec().current_char_index,
    {
        let c = file.next();
        if !(c == Some('e') || c == Some('l') || c == Some('s')) {
            return;
        }
    }
}

/// Reads what follows a decimal point, as [`float_scan`] says.
fn float_scan_x(file: &mut File) -> (r: String)
    requires
        float_scan(old(file).text(), old(file).pos_spec(), Seq::empty()) is Some,
    ensures
        final(file).text() == old(file).text(),
        float_scan(old(file).text(), old(file).pos_spec(), Seq::empty()) == Some((r@, final(file).pos_spec())),
{
    let ghost t = file.text();
    let ghost res = float_scan(t, file.pos_spec(), Seq::empty());
    let mut pot = String::new();
    loop
        invariant
            file.text() == t,
            t == old(file).text(),
            res == float_scan(old(file).text(), old(file).pos_spec(), Seq::empty()),
            float_scan(t, file.pos_spec(), pot@) == res,
            res is Some,
        decreases usize::MAX - file.pos_spec().current_char_index,
    {
        let before = *file.get_pos();
        match file.peek() {
            Some(x) => {
                if char_is_whitespace(x) || x == '}' || x == ']' || x == ')' || x == '.' {
                    file.set_pos(before);
                    return pot;
                }
                let _ = file.next();
                string_push(&mut pot, x);
            },
            None => {
                let _ = file.next();
                return pot;
            },
        }
    }
}

proof fn lemma_lead_digits(s: Seq<char>, i: nat)
    requires
        i <= s.len(),
        forall|j: int| 0 <= j < i ==> '0' <= #[trigger] s[j] <= '9',
        i == s.len() || !('0' <= s[i as int] <= '9'),
    ensures
        lead_digits(s) == i,
    decreases i,
{
    if i > 0 {
        assert forall|j: int| 0 <= j < i - 1 implies '0' <= #[trigger] s.skip(1)[j] <= '9' by {
            assert(s.skip(1)[j] == s[j + 1]);
        }
        lemma_lead_digits(s.skip(1), (i - 1) as nat);
    }
}

/// The number of ASCII digits from index `k` on.
fn digits_from(cs: &Vec<char>, k: usize) -> (r: usize)
    requires
        k <= cs@.len(),
    ensures
        k <= r <= cs@.len(),
        lead_digits(cs@.skip(k as int)) == r - k,
{
    let mut i = k;
    while i < cs.len() && '0' <= cs[i] && cs[i] <= '9'
        invariant
            k <= i <= cs@.len(),
            forall|j: int| k <= j < i ==> '0' <= #[trigger] cs@[j] <= '9',
        decreases cs@.len() - i,
    {
        i += 1;
    }
    proof {
        let sk = cs@.skip(k as int);
        assert forall|j: int| 0 <= j < i - k implies '0' <= #[trigger] sk[j] <= '9' by {
            assert(sk[j] == cs@[j + k]);
        }
        if i < cs@.len() {
            assert(sk[i - k] == cs@[i as int]);
        }
        lemma_lead_digits(sk, (i - k) as nat);
    }
    i
}

/// Whether `s` may follow `digits.` in a float, as [`float_tail`] says.
fn float_tail_x(s: &String) -> (r: bool)
    ensures
        r == float_tail(s@),
{
    let cs = crate::text::string_chars(s.as_str());
    let k = digits_from(&cs, 0);
    assert(cs@.skip(0) =~= cs@);
    if k == cs.len() {
        return true;
    }
    if !(cs[k] == 'e' || cs[k] == 'E') {
        return false;
    }
    let mut a = k + 1;
    let ghost r0 = cs@.skip(k + 1);
    if a < cs.len() && (cs[a] == '+' || cs[a] == '-') {
        assert(r0[0] == cs@[a as int]);
        a += 1;
        assert(r0.skip(1) =~= cs@.skip(a as int));
    } else {
        assert(a < cs@.len() ==> r0[0] == cs@[a as int]);
        assert(r0 =~= cs@.skip(a as int));
    }
    let e = digits_from(&cs, a);
    e > a && e == cs.len()
}

/// An integer, a float or a variable, as [`value_or_var`] says.
fn value_or_var_x(file: &mut File, st: String, ch: char) -> (r: Result<(SStatement, bool), ParseError>)
    requires
        !(value_or_var(old(file).text(), old(file).pos_spec(), st@, ch) is Stuck),
    ensures
        final(file).text() == old(file).text(),
        pair_outcome(value_or_var(old(file).text(), old(file).pos_spec(), st@, ch), r, final(file).pos_spec()),
{
    let ghost t = file.text();
    let ghost p0 = file.pos_spec();
    match parse_int(&st) {
        Ok(n) => {
            assert(parse_int_spec(st@) == Some(n as int));
            if ch == '.' {
                let pos = *file.get_pos();
                let _ = file.next();
                let pot = float_scan_x(file);
                if float_tail_x(&pot) {
                    let mut text = st;
                    string_push(&mut text, '.');
                    append(&mut text, pot.as_str());
                    assert(text@ == st@ + seq!['.'] + pot@);
                    Ok((SStatementEnum::Value(VDataEnum::Float(text)).to(), true))
                } else {
                    file.set_pos(pos);
                    Ok((SStatementEnum::Value(VDataEnum::Int(n)).to(), true))
                }
            } else {
                Ok((SStatementEnum::Value(VDataEnum::Int(n)).to(), true))
            }
        },
        Err(_) => {
            assert(!(parse_int_spec(st@) matches Some(n) && isize::MIN <= n <= isize::MAX));
            let cs = crate::text::string_chars(st.as_str());
            if cs.len() > 0 && cs[0] == '&' {
                let name = crate::text::chars_to_string(&cs, 1, cs.len());
                assert(cs@.subrange(1, cs@.len() as int) =~= st@.skip(1));
                Ok((SStatementEnum::Variable(name, true).to(), true))
            } else {
                Ok((SStatementEnum::Variable(st, false).to(), true))
            }
        },
    }
}


proof fn lemma_stmts_push(a: Seq<SStatement>, x: SStatement)
    ensures
        stmts_model(a.push(x)) == stmts_model(a).push(x.model()),
{
    assert(a.push(x).drop_last() =~= a);
}

proof fn lemma_stmts_concat(a: Seq<SStatement>, b: Seq<SStatement>)
    ensures
        stmts_model(a + b) == stmts_model(a) + stmts_model(b),
    decreases b.len(),
{
    if b.len() == 0 {
        assert(a + b =~= a);
        assert(stmts_model(a) + stmts_model(b) =~= stmts_model(a));
    } else {
        lemma_stmts_concat(a, b.drop_last());
        assert((a + b).drop_last() =~= a + b.drop_last());
        assert(stmts_model(a) + stmts_model(b) =~= (stmts_model(a) + stmts_model(b.drop_last())).push(b.last().model()));
    }
}

/// `interpreted this as an assignment ...`.
fn typed_msg() -> (r: String)
    ensures
        r@ == "interpreted this as an assignment to a variable with the format <var>::<var_type> = <statement>"@,
{
    let mut m = String::new();
    append(&mut m, "interpreted this as an assignment to a variable with the format <var>::<var_type> = <statement>");
    m
}

/// The context of an error in a chain, as [`chain_ctx`] says.
fn chain_ctx_x(len: usize, s: FilePosition, prev: FilePosition) -> (r: Vec<(String, Option<(FilePosition, Option<FilePosition>)>)>)
    requires
        len < usize::MAX,
    ensures
        context_model(r@) == chain_ctx(len as nat, s, prev),
{
    let mut v: Vec<(String, Option<(FilePosition, Option<FilePosition>)>)> = Vec::new();
    if len > 0 {
        let mut m = String::new();
        append(&mut m, "this is the ");
        if len == 1 {
            append(&mut m, "second");
        } else if len == 2 {
            append(&mut m, "third");
        } else {
            push_decimal(&mut m, len + 1);
            append(&mut m, "th");
        }
        append(&mut m, " wrapping statement in a chain.");
        assert(m@ == "this is the "@ + ordinal(len as nat) + " wrapping statement in a chain."@);
        v.push((m, None));
    }
    let mut m2 = String::new();
    append(&mut m2, "the statement that was supposed to be wrapped");
    v.push((m2, Some((s, Some(prev)))));
    assert(context_model(v@) =~= chain_ctx(len as nat, s, prev));
    v
}

/// Reads a function argument's name, as [`arg_name_scan`] says: the name,
/// or where the read that met the end started.
fn arg_name_x(file: &mut File) -> (r: Result<String, FilePosition>)
    requires
        !(arg_name_scan(old(file).text(), old(file).pos_spec(), Seq::empty()) is Stuck),
    ensures
        final(file).text() == old(file).text(),
        match arg_name_scan(old(file).text(), old(file).pos_spec(), Seq::empty()) {
            NameScan::Name(n, q) => r matches Ok(x) && x@ == n && final(file).pos_spec() == q,
            NameScan::Eof(b, q) => r == Err::<String, FilePosition>(b) && final(file).pos_spec() == q,
            NameScan::Stuck => false,
        },
{
    let ghost t = file.text();
    let ghost res = arg_name_scan(t, file.pos_spec(), Seq::empty());
    let mut name = String::new();
    loop
        invariant
            file.text() == t,
            t == old(file).text(),
            res == arg_name_scan(old(file).text(), old(file).pos_spec(), Seq::empty()),
            arg_name_scan(t, file.pos_spec(), name@) == res,
            !(res is Stuck),
        decreases usize::MAX - file.pos_spec().current_char_index,
    {
        let before = *file.get_pos();
        match file.next() {
            Some(ch) => {
                if char_is_whitespace(ch) {
                    return Ok(name);
                }
                string_push(&mut name, ch);
            },
            None => {
                return Err(before);
            },
        }
    }
}

/// A statement, as [`statement_spec`] says: `is_part_of_chain_already`
/// tells that it wraps another one, so that no `.` chain follows it.
pub fn parse_statement_adv(file: &mut File, is_part_of_chain_already: bool) -> (r: Result<SStatement, ParseError>)
    requires
        !(statement_spec(old(file).text(), old(file).pos_spec(), is_part_of_chain_already) is Stuck),
    ensures
        final(file).text() == old(file).text(),
        stmt_outcome(statement_spec(old(file).text(), old(file).pos_spec(), is_part_of_chain_already), r, final(file).pos_spec()),
    decreases usize::MAX - old(file).pos_spec().current_char_index, 5nat, 0nat,
{
    let ghost t = file.text();
    let ghost p = file.pos_spec();
    proof { lemma_sws(t, p); }
    file.skip_whitespaces();
    let s = *file.get_pos();
    match head_x(file, s) {
        Ok((x, through)) => {
            if !through {
                Ok(x)
            } else {
                tail_x(file, x, is_part_of_chain_already, s)
            }
        },
        Err(e) => Err(e),
    }
}

/// A statement with its `.` chain.
pub fn parse_statement(file: &mut File) -> (r: Result<SStatement, ParseError>)
    requires
        !(statement_spec(old(file).text(), old(file).pos_spec(), false) is Stuck),
    ensures
        final(file).text() == old(file).text(),
        stmt_outcome(statement_spec(old(file).text(), old(file).pos_spec(), false), r, final(file).pos_spec()),
{
    parse_statement_adv(file, false)
}

/// The first part of a statement, as [`head_spec`] says.
fn head_x(file: &mut File, s: FilePosition) -> (r: Result<(SStatement, bool), ParseError>)
    requires
        old(file).pos_spec() == s,
        !(head_spec(old(file).text(), s) is Stuck),
    ensures
        final(file).text() == old(file).text(),
        pair_outcome(head_spec(old(file).text(), s), r, final(file).pos_spec()),
    decreases usize::MAX - s.current_char_index, 4nat, usize::MAX - s.current_char_index + 1,
{
    let c = file.peek();
    if c == Some('{') {
        let _ = file.next();
        match block_loop_x(file, false, true, false, false, Vec::new()) {
            Ok(b) => Ok((SStatementEnum::Block(SBlock::new(b)).to(), true)),
            Err(e) => Err(e),
        }
    } else if c == Some('[') {
        let _ = file.next();
        match items_x(file) {
            Ok(x) => Ok((x, true)),
            Err(e) => Err(e),
        }
    } else if c == Some('"') {
        let _ = file.next();
        match string_x(file, s) {
            Ok(x) => Ok((x, true)),
            Err(e) => Err(e),
        }
    } else {
        word_x(file, String::new(), s)
    }
}

/// What follows a statement, as [`tail_spec`] says.
fn tail_x(file: &mut File, out: SStatement, chain: bool, s: FilePosition) -> (r: Result<SStatement, ParseError>)
    requires
        !(tail_spec(old(file).text(), old(file).pos_spec(), out.model(), chain, s) is Stuck),
    ensures
        final(file).text() == old(file).text(),
        stmt_outcome(tail_spec(old(file).text(), old(file).pos_spec(), out.model(), chain, s), r, final(file).pos_spec()),
    decreases usize::MAX - old(file).pos_spec().current_char_index, 7nat, 0nat,
{
    let ghost t = file.text();
    let q = *file.get_pos();
    proof { lemma_sws(t, q); }
    file.skip_whitespaces();
    let i = file.get_pos().current_char_index;
    let n = file.text_len();
    if i <= n && n - i >= 2 && file.get_char(i) == Some('.') && file.get_char(i + 1) == Some('.') {
        return Ok(out);
    }
    if file.peek() == Some('.') {
        let _ = file.next();
    }
    if chain {
        return Ok(out);
    }
    chain_x(file, out, q, s)
}

/// The `.` chain, as [`chain_spec`] says from no wrappers.
fn chain_x(file: &mut File, first: SStatement, first_end: FilePosition, s: FilePosition) -> (r: Result<SStatement, ParseError>)
    requires
        !(chain_spec(old(file).text(), old(file).pos_spec(), first.model(), 0, first_end, s) is Stuck),
    ensures
        final(file).text() == old(file).text(),
        stmt_outcome(chain_spec(old(file).text(), old(file).pos_spec(), first.model(), 0, first_end, s), r, final(file).pos_spec()),
    decreases usize::MAX - old(file).pos_spec().current_char_index, 6nat, 0nat,
{
    let ghost t = file.text();
    let ghost p0 = file.pos_spec();
    let ghost res = chain_spec(t, p0, first.model(), 0, first_end, s);
    let mut out = first;
    let mut len: usize = 0;
    let mut prev = first_end;
    loop
        invariant
            file.text() == t,
            t == old(file).text(),
            p0 == old(file).pos_spec(),
            res == chain_spec(old(file).text(), old(file).pos_spec(), first.model(), 0, first_end, s),
            chain_spec(t, file.pos_spec(), out.model(), len as nat, prev, s) == res,
            file.pos_spec().current_char_index >= p0.current_char_index,
            len <= file.pos_spec().current_char_index,
            !(res is Stuck),
        decreases usize::MAX - file.pos_spec().current_char_index,
    {
        let q = *file.get_pos();
        let i = if q.current_char_index == 0 { 0 } else { q.current_char_index - 1 };
        if file.get_char(i) != Some('.') {
            return Ok(out);
        }
        let w = match parse_statement_adv(file, true) {
            Ok(w) => w,
            Err(e) => {
                return Err(e);
            },
        };
        let q3 = *file.get_pos();
        match *w.statement {
            SStatementEnum::FunctionCall(f, args) => {
                let ghost om = out.model();
                let ghost am = args@;
                let mut a = args;
                a.insert(0, out);
                proof {
                    assert(a@ =~= seq![a@[0]] + am);
                    lemma_stmts_concat(seq![a@[0]], am);
                    assert(stmts_model(seq![a@[0]]) =~= seq![om]) by {
                        lemma_stmts_push(Seq::empty(), a@[0]);
                        assert(Seq::<SStatement>::empty().push(a@[0]) =~= seq![a@[0]]);
                    }
                }
                out = SStatementEnum::FunctionCall(f, a).to();
            },
            SStatementEnum::Value(v) => {
                match v {
                    VDataEnum::Int(n) => {
                        out = SStatementEnum::IndexFixed(out, n as usize).to();
                    },
                    VDataEnum::Bool(b) => {
                        return Err(ParseError { err: ParseErrors::CannotUseFixedIndexingWithThisType(crate::script::val_type::VSingleType::Bool.to()), location: q, location_end: Some(q3), context: chain_ctx_x(len, s, prev) });
                    },
                    VDataEnum::Float(x) => {
                        return Err(ParseError { err: ParseErrors::CannotUseFixedIndexingWithThisType(crate::script::val_type::VSingleType::Float.to()), location: q, location_end: Some(q3), context: chain_ctx_x(len, s, prev) });
                    },
                    VDataEnum::String(x) => {
                        return Err(ParseError { err: ParseErrors::CannotUseFixedIndexingWithThisType(crate::script::val_type::VSingleType::String.to()), location: q, location_end: Some(q3), context: chain_ctx_x(len, s, prev) });
                    },
                }
            },
            other => {
                return Err(ParseError { err: ParseErrors::CannotWrapWithThisStatement(other), location: q, location_end: Some(q3), context: chain_ctx_x(len, s, prev) });
            },
        }
        prev = q3;
        len = len + 1;
    }
}


/// The items of `[...]`, as [`items_spec`] says from none.
fn items_x(file: &mut File) -> (r: Result<SStatement, ParseError>)
    requires
        !(items_spec(old(file).text(), old(file).pos_spec(), Seq::empty()) is Stuck),
    ensures
        final(file).text() == old(file).text(),
        stmt_outcome(items_spec(old(file).text(), old(file).pos_spec(), Seq::empty()), r, final(file).pos_spec()),
    decreases usize::MAX - old(file).pos_spec().current_char_index, 6nat, 0nat,
{
    let ghost t = file.text();
    let ghost p0 = file.pos_spec();
    let ghost res = items_spec(t, p0, Seq::empty());
    let mut items: Vec<SStatement> = Vec::new();
    loop
        invariant
            file.text() == t,
            t == old(file).text(),
            p0 == old(file).pos_spec(),
            res == items_spec(old(file).text(), old(file).pos_spec(), Seq::empty()),
            items_spec(t, file.pos_spec(), stmts_model(items@)) == res,
            file.pos_spec().current_char_index >= p0.current_char_index,
            !(res is Stuck),
        decreases usize::MAX - file.pos_spec().current_char_index,
    {
        let ghost pc = file.pos_spec();
        proof { lemma_sws(t, pc); }
        file.skip_whitespaces();
        let p1 = *file.get_pos();
        let i = p1.current_char_index;
        if file.peek() == Some(']') {
            let _ = file.next();
            return Ok(SStatementEnum::Tuple(items).to());
        }
        let n = file.text_len();
        if i <= n && n - i >= 4 && file.get_char(i) == Some('.') && file.get_char(i + 1) == Some('.')
            && file.get_char(i + 2) == Some('.') && file.get_char(i + 3) == Some(']') {
            assert(dots_at(t, i as int));
            proof {
                lemma_walk(t, p1, 0);
                lemma_walk(t, p1, 1);
                lemma_walk(t, p1, 2);
                lemma_walk(t, p1, 3);
            }
            let _ = file.next();
            let _ = file.next();
            let _ = file.next();
            let _ = file.next();
            return Ok(SStatementEnum::List(items).to());
        }
        assert(!dots_at(t, i as int));
        match parse_statement_adv(file, false) {
            Ok(x) => {
                proof { lemma_stmts_push(items@, x); }
                items.push(x);
            },
            Err(e) => {
                return Err(e);
            },
        }
    }
}

/// A statement that starts with a name, as [`word_spec`] says.
fn word_x(file: &mut File, start: String, s: FilePosition) -> (r: Result<(SStatement, bool), ParseError>)
    requires
        !(word_spec(old(file).text(), old(file).pos_spec(), start@, s) is Stuck),
    ensures
        final(file).text() == old(file).text(),
        pair_outcome(word_spec(old(file).text(), old(file).pos_spec(), start@, s), r, final(file).pos_spec()),
    decreases usize::MAX - s.current_char_index, 4nat, usize::MAX - old(file).pos_spec().current_char_index,
{
    let ghost t = file.text();
    let ghost res = word_spec(t, file.pos_spec(), start@, s);
    let mut buf = start;
    loop
        invariant
            file.text() == t,
            t == old(file).text(),
            res == word_spec(old(file).text(), old(file).pos_spec(), start@, s),
            word_spec(t, file.pos_spec(), buf@, s) == res,
            !(res is Stuck),
        decreases usize::MAX - file.pos_spec().current_char_index,
    {
        match file.peek() {
            Some(ch) => {
                if ch == '}' || ch == ']' || ch == ')' || ch == '.' {
                    return word_end_x(file, buf, s, ch);
                }
            },
            None => {},
        }
        match file.next() {
            Some(ch) => {
                if ch == ':' {
                    return colon_x(file, buf, s);
                }
                if char_is_whitespace(ch) {
                    return word_end_x(file, buf, s, ch);
                }
                if ch == '(' {
                    return call_x(file, buf, s);
                }
                string_push(&mut buf, ch);
            },
            None => {
                return Err(mk_err(ParseErrors::FoundEofInStatement, s, Some(*file.get_pos())));
            },
        }
    }
}

/// A name that ended with `ch`, as [`word_end_spec`] says.
fn word_end_x(file: &mut File, buf: String, s: FilePosition, ch: char) -> (r: Result<(SStatement, bool), ParseError>)
    requires
        !(word_end_spec(old(file).text(), old(file).pos_spec(), buf@, s, ch) is Stuck),
    ensures
        final(file).text() == old(file).text(),
        pair_outcome(word_end_spec(old(file).text(), old(file).pos_spec(), buf@, s, ch), r, final(file).pos_spec()),
    decreases usize::MAX - s.current_char_index, 3nat, 0nat,
{
    let ghost t = file.text();
    let st = trim_string(buf.as_str());
    if crate::text::string_chars(st.as_str()).len() == 0 {
        return Err(mk_err(ParseErrors::StatementCannotStartWith(ch), *file.get_pos(), None));
    }
    let ghost q = file.pos_spec();
    proof { lemma_sws(t, q); }
    file.skip_whitespaces();
    if file.peek() == Some('=') {
        let _ = file.next();
        let qe = *file.get_pos();
        match parse_statement_adv(file, false) {
            Ok(v) => Ok((assign_x(v, &st), true)),
            Err(e) => Err(push_ctx(e, assign_msg(&st), Some((s, Some(qe))))),
        }
    } else {
        keyword_x(file, st, s, ch)
    }
}

/// What a name stands for, as [`keyword_spec`] says.
fn keyword_x(file: &mut File, st: String, s: FilePosition, ch: char) -> (r: Result<(SStatement, bool), ParseError>)
    requires
        !(keyword_spec(old(file).text(), old(file).pos_spec(), st@, s, ch) is Stuck),
    ensures
        final(file).text() == old(file).text(),
        pair_outcome(keyword_spec(old(file).text(), old(file).pos_spec(), st@, s, ch), r, final(file).pos_spec()),
    decreases usize::MAX - s.current_char_index, 2nat, 0nat,
{
    let ghost t = file.text();
    let ghost q1 = file.pos_spec();
    assert(moved(s, q1));
    if str_eq(st.as_str(), "fn") {
        proof { lemma_sws(t, q1); }
        file.skip_whitespaces();
        fn_name_x(file, s)
    } else if str_eq(st.as_str(), "if") {
        if_x(file)
    } else if str_eq(st.as_str(), "for") {
        for_x(file)
    } else if str_eq(st.as_str(), "while") || str_eq(st.as_str(), "loop") {
        match parse_statement_adv(file, false) {
            Ok(b) => Ok((SStatementEnum::Loop(b).to(), true)),
            Err(e) => Err(e),
        }
    } else if str_eq(st.as_str(), "switch") || str_eq(st.as_str(), "switch!") {
        let force = str_eq(st.as_str(), "switch!");
        switch_x(file, force)
    } else if str_eq(st.as_str(), "match") {
        match_x(file)
    } else if str_eq(st.as_str(), "true") {
        Ok((SStatementEnum::Value(VDataEnum::Bool(true)).to(), true))
    } else if str_eq(st.as_str(), "false") {
        Ok((SStatementEnum::Value(VDataEnum::Bool(false)).to(), true))
    } else {
        value_or_var_x(file, st, ch)
    }
}

/// `fn name(args) body` from the name, as [`fn_name_spec`] says.
fn fn_name_x(file: &mut File, s: FilePosition) -> (r: Result<(SStatement, bool), ParseError>)
    requires
        !(fn_name_spec(old(file).text(), old(file).pos_spec(), Seq::empty(), s) is Stuck),
    ensures
        final(file).text() == old(file).text(),
        pair_outcome(fn_name_spec(old(file).text(), old(file).pos_spec(), Seq::empty(), s), r, final(file).pos_spec()),
    decreases usize::MAX - old(file).pos_spec().current_char_index, 1nat, 0nat,
{
    let ghost t = file.text();
    let ghost p0 = file.pos_spec();
    let ghost res = fn_name_spec(t, p0, Seq::empty(), s);
    let mut name = String::new();
    loop
        invariant
            file.text() == t,
            t == old(file).text(),
            p0 == old(file).pos_spec(),
            res == fn_name_spec(old(file).text(), old(file).pos_spec(), Seq::empty(), s),
            fn_name_spec(t, file.pos_spec(), name@, s) == res,
            file.pos_spec().current_char_index >= p0.current_char_index,
            !(res is Stuck),
        decreases usize::MAX - file.pos_spec().current_char_index,
    {
        let c = file.next();
        match c {
            Some(ch) => {
                if ch != '(' {
                    string_push(&mut name, ch);
                    continue;
                }
            },
            None => {},
        }
        let n = trim_string(name.as_str());
        return match parse_function(file, Some(s)) {
            Ok(f) => Ok((SStatementEnum::FunctionDefinition(Some(n), f).to(), true)),
            Err(e) => Err(e),
        };
    }
}

/// `else ` at index `i`.
fn else_at_x(file: &File, i: usize) -> (r: bool)
    ensures
        r == else_at(file.text(), i as int),
{
    let ghost t = file.text();
    proof { reveal_strlit("else "); }
    let n = file.text_len();
    if i <= n && n - i >= 5 && file.get_char(i) == Some('e') && file.get_char(i + 1) == Some('l')
        && file.get_char(i + 2) == Some('s') && file.get_char(i + 3) == Some('e') && file.get_char(i + 4) == Some(' ') {
        assert(t.subrange(i as int, i + 5) =~= "else "@);
        true
    } else {
        proof {
            if else_at(t, i as int) {
                assert(t.subrange(i as int, i + 5)[0] == t[i as int]);
                assert(t.subrange(i as int, i + 5)[1] == t[i + 1]);
                assert(t.subrange(i as int, i + 5)[2] == t[i + 2]);
                assert(t.subrange(i as int, i + 5)[3] == t[i + 3]);
                assert(t.subrange(i as int, i + 5)[4] == t[i + 4]);
            }
        }
        false
    }
}

/// `if condition then else other`, as [`if_spec`] says.
fn if_x(file: &mut File) -> (r: Result<(SStatement, bool), ParseError>)
    requires
        !(if_spec(old(file).text(), old(file).pos_spec()) is Stuck),
    ensures
        final(file).text() == old(file).text(),
        pair_outcome(if_spec(old(file).text(), old(file).pos_spec()), r, final(file).pos_spec()),
    decreases usize::MAX - old(file).pos_spec().current_char_index, 8nat, 0nat,
{
    let ghost t = file.text();
    let c = match parse_statement_adv(file, false) {
        Ok(c) => c,
        Err(e) => {
            return Err(e);
        },
    };
    let y = match parse_statement_adv(file, false) {
        Ok(y) => y,
        Err(e) => {
            return Err(e);
        },
    };
    let ghost q2 = file.pos_spec();
    proof { lemma_sws(t, q2); }
    file.skip_whitespaces();
    let i = file.get_pos().current_char_index;
    if else_at_x(file, i) {
        else_skip_x(file);
        match parse_statement_adv(file, false) {
            Ok(n) => Ok((SStatementEnum::If(c, y, Some(n)).to(), true)),
            Err(e) => Err(e),
        }
    } else {
        Ok((SStatementEnum::If(c, y, None).to(), true))
    }
}

/// `for name iterable body`, as [`for_spec`] says.
fn for_x(file: &mut File) -> (r: Result<(SStatement, bool), ParseError>)
    requires
        !(for_spec(old(file).text(), old(file).pos_spec()) is Stuck),
    ensures
        final(file).text() == old(file).text(),
        pair_outcome(for_spec(old(file).text(), old(file).pos_spec()), r, final(file).pos_spec()),
    decreases usize::MAX - old(file).pos_spec().current_char_index, 8nat, 0nat,
{
    let ghost t = file.text();
    let ghost p = file.pos_spec();
    proof { lemma_sws(t, p); }
    file.skip_whitespaces();
    let name = word_to_ws_x(file);
    let a = match parse_statement_adv(file, false) {
        Ok(a) => a,
        Err(e) => {
            return Err(e);
        },
    };
    match parse_statement_adv(file, false) {
        Ok(b) => Ok((SStatementEnum::For(name, a, b).to(), true)),
        Err(e) => Err(e),
    }
}

proof fn lemma_typed_arms_push(a: Seq<(VType, SStatement)>, x: (VType, SStatement))
    ensures
        typed_arms_model(a.push(x)) == typed_arms_model(a).push((x.0.model(), x.1.model())),
{
    assert(a.push(x).drop_last() =~= a);
}

proof fn lemma_arms_push(a: Seq<(SStatement, SStatement)>, x: (SStatement, SStatement))
    ensures
        arms_model(a.push(x)) == arms_model(a).push((x.0.model(), x.1.model())),
{
    assert(a.push(x).drop_last() =~= a);
}

/// `switch var { ... }`, as [`switch_spec`] says.
fn switch_x(file: &mut File, force: bool) -> (r: Result<(SStatement, bool), ParseError>)
    requires
        !(switch_spec(old(file).text(), old(file).pos_spec(), force) is Stuck),
    ensures
        final(file).text() == old(file).text(),
        pair_outcome(switch_spec(old(file).text(), old(file).pos_spec(), force), r, final(file).pos_spec()),
    decreases usize::MAX - old(file).pos_spec().current_char_index, 8nat, 0nat,
{
    let ghost t = file.text();
    let what = word_to_ws_x(file);
    let ghost q = file.pos_spec();
    proof { lemma_sws(t, q); }
    file.skip_whitespaces();
    let _ = file.next();
    match switch_cases_x(file) {
        Ok(cases) => Ok((SStatementEnum::Switch(what, cases, force).to(), true)),
        Err(e) => Err(e),
    }
}

/// The cases of a `switch`, as [`switch_cases_spec`] says from none.
fn switch_cases_x(file: &mut File) -> (r: Result<Vec<(VType, SStatement)>, ParseError>)
    requires
        !(switch_cases_spec(old(file).text(), old(file).pos_spec(), Seq::empty()) is Stuck),
    ensures
        final(file).text() == old(file).text(),
        switch_outcome(switch_cases_spec(old(file).text(), old(file).pos_spec(), Seq::empty()), r, final(file).pos_spec()),
    decreases usize::MAX - old(file).pos_spec().current_char_index, 6nat, 0nat,
{
    let ghost t = file.text();
    let ghost p0 = file.pos_spec();
    let ghost res = switch_cases_spec(t, p0, Seq::empty());
    let mut cases: Vec<(VType, SStatement)> = Vec::new();
    loop
        invariant
            file.text() == t,
            t == old(file).text(),
            p0 == old(file).pos_spec(),
            res == switch_cases_spec(old(file).text(), old(file).pos_spec(), Seq::empty()),
            switch_cases_spec(t, file.pos_spec(), typed_arms_model(cases@)) == res,
            file.pos_spec().current_char_index >= p0.current_char_index,
            !(res is Stuck),
        decreases usize::MAX - file.pos_spec().current_char_index,
    {
        let ghost pc = file.pos_spec();
        proof { lemma_sws(t, pc); }
        file.skip_whitespaces();
        if file.peek() == Some('}') {
            let _ = file.next();
            return Ok(cases);
        }
        let ghost p1 = file.pos_spec();
        match parse_type_adv(file, false) {
            Ok((ty, _)) => {
                match parse_statement_adv(file, false) {
                    Ok(x) => {
                        proof { lemma_typed_arms_push(cases@, (ty, x)); }
                        cases.push((ty, x));
                    },
                    Err(e) => {
                        return Err(e);
                    },
                }
            },
            Err(e) => {
                proof {
                    if let Parsed::Failed(k, s2, x) = pt(t, p1, false) {
                        lemma_type_err(e, k, s2, x);
                    }
                }
                return Err(e);
            },
        }
    }
}

/// `match var { ... }`, as [`match_spec`] says.
fn match_x(file: &mut File) -> (r: Result<(SStatement, bool), ParseError>)
    requires
        !(match_spec(old(file).text(), old(file).pos_spec()) is Stuck),
    ensures
        final(file).text() == old(file).text(),
        pair_outcome(match_spec(old(file).text(), old(file).pos_spec()), r, final(file).pos_spec()),
    decreases usize::MAX - old(file).pos_spec().current_char_index, 8nat, 0nat,
{
    let ghost t = file.text();
    let what = word_to_ws_x(file);
    let ghost q = file.pos_spec();
    proof { lemma_sws(t, q); }
    file.skip_whitespaces();
    let _ = file.next();
    match match_cases_x(file) {
        Ok(cases) => Ok((SStatementEnum::Match(what, cases).to(), true)),
        Err(e) => Err(e),
    }
}

/// The cases of a `match`, as [`match_cases_spec`] says from none.
fn match_cases_x(file: &mut File) -> (r: Result<Vec<(SStatement, SStatement)>, ParseError>)
    requires
        !(match_cases_spec(old(file).text(), old(file).pos_spec(), Seq::empty()) is Stuck),
    ensures
        final(file).text() == old(file).text(),
        match_outcome(match_cases_spec(old(file).text(), old(file).pos_spec(), Seq::empty()), r, final(file).pos_spec()),
    decreases usize::MAX - old(file).pos_spec().current_char_index, 6nat, 0nat,
{
    let ghost t = file.text();
    let ghost p0 = file.pos_spec();
    let ghost res = match_cases_spec(t, p0, Seq::empty());
    let mut cases: Vec<(SStatement, SStatement)> = Vec::new();
    loop
        invariant
            file.text() == t,
            t == old(file).text(),
            p0 == old(file).pos_spec(),
            res == match_cases_spec(old(file).text(), old(file).pos_spec(), Seq::empty()),
            match_cases_spec(t, file.pos_spec(), arms_model(cases@)) == res,
            file.pos_spec().current_char_index >= p0.current_char_index,
            !(res is Stuck),
        decreases usize::MAX - file.pos_spec().current_char_index,
    {
        let ghost pc = file.pos_spec();
        proof { lemma_sws(t, pc); }
        file.skip_whitespaces();
        if file.peek() == Some('}') {
            let _ = file.next();
            return Ok(cases);
        }
        let a = match parse_statement_adv(file, false) {
            Ok(a) => a,
            Err(e) => {
                return Err(e);
            },
        };
        match parse_statement_adv(file, false) {
            Ok(b) => {
                proof { lemma_arms_push(cases@, (a, b)); }
                cases.push((a, b));
            },
            Err(e) => {
                return Err(e);
            },
        }
    }
}

/// After `name:`, as [`colon_spec`] says.
fn colon_x(file: &mut File, buf: String, s: FilePosition) -> (r: Result<(SStatement, bool), ParseError>)
    requires
        !(colon_spec(old(file).text(), old(file).pos_spec(), buf@, s) is Stuck),
    ensures
        final(file).text() == old(file).text(),
        pair_outcome(colon_spec(old(file).text(), old(file).pos_spec(), buf@, s), r, final(file).pos_spec()),
    decreases usize::MAX - s.current_char_index, 3nat, 0nat,
{
    let ghost t = file.text();
    if file.peek() == Some(':') {
        let _ = file.next();
        let q1 = *file.get_pos();
        let tr = parse_type_adv(file, false);
        let ghost qa = file.pos_spec();
        proof { lemma_sws(t, qa); }
        file.skip_whitespaces();
        let c = file.next();
        if c == Some('=') {
            let qc = *file.get_pos();
            let st = trim_string(buf.as_str());
            match parse_statement_adv(file, false) {
                Ok(v) => match tr {
                    Ok((ty, _)) => Ok((assign_x(v, &st).force_output_type(Some(ty)), true)),
                    Err(e) => {
                        proof {
                            if let Parsed::Failed(k, s2, x) = pt(t, q1, false) {
                                lemma_type_err(e, k, s2, x);
                            }
                        }
                        Err(push_ctx(e, typed_msg(), Some((s, Some(qc)))))
                    },
                },
                Err(e) => Err(push_ctx(e, assign_msg(&st), Some((s, Some(qc))))),
            }
        } else {
            file.set_pos(q1);
            variant_x(file, buf, s)
        }
    } else {
        variant_x(file, buf, s)
    }
}

/// `name: statement`, as [`variant_spec`] says.
fn variant_x(file: &mut File, buf: String, s: FilePosition) -> (r: Result<(SStatement, bool), ParseError>)
    requires
        !(variant_spec(old(file).text(), old(file).pos_spec(), buf@, s) is Stuck),
    ensures
        final(file).text() == old(file).text(),
        pair_outcome(variant_spec(old(file).text(), old(file).pos_spec(), buf@, s), r, final(file).pos_spec()),
    decreases usize::MAX - s.current_char_index, 2nat, 0nat,
{
    match parse_statement_adv(file, false) {
        Ok(v) => Ok((SStatement::new(SStatementEnum::EnumVariant(buf, v)), false)),
        Err(e) => Err(e),
    }
}

/// A name followed by `(`, as [`call_spec`] says.
fn call_x(file: &mut File, buf: String, s: FilePosition) -> (r: Result<(SStatement, bool), ParseError>)
    requires
        !(call_spec(old(file).text(), old(file).pos_spec(), buf@, s) is Stuck),
    ensures
        final(file).text() == old(file).text(),
        pair_outcome(call_spec(old(file).text(), old(file).pos_spec(), buf@, s), r, final(file).pos_spec()),
    decreases usize::MAX - s.current_char_index, 3nat, 0nat,
{
    let name = trim_string(buf.as_str());
    if crate::text::string_chars(name.as_str()).len() == 0 {
        match parse_function(file, Some(s)) {
            Ok(f) => Ok((SStatementEnum::FunctionDefinition(None, f).to(), true)),
            Err(e) => Err(e),
        }
    } else {
        match parse_block_advanced(file, Some(false), false, false, true) {
            Ok(b) => Ok((SStatementEnum::FunctionCall(name, b.statements).to(), true)),
            Err(e) => Err(mk_err(ParseErrors::ErrorParsingFunctionArgs(Box::new(e)), s, Some(*file.get_pos()))),
        }
    }
}

/// A block, as [`block_spec`] says: `assume_single_statement` unset lets a
/// `{` decide; the flags tell whether `}`, `)` or the end close it.
pub fn parse_block_advanced(file: &mut File, assume_single_statement: Option<bool>,
    treat_closed_block_bracket_as_closing_delimeter: bool, treat_eof_as_closing_delimeter: bool,
    treat_closed_normal_bracket_as_closing_delimeter: bool) -> (r: Result<SBlock, ParseError>)
    requires
        !(block_spec(old(file).text(), old(file).pos_spec(), assume_single_statement,
            treat_closed_block_bracket_as_closing_delimeter, treat_closed_normal_bracket_as_closing_delimeter,
            treat_eof_as_closing_delimeter) is Stuck),
    ensures
        final(file).text() == old(file).text(),
        match block_spec(old(file).text(), old(file).pos_spec(), assume_single_statement,
            treat_closed_block_bracket_as_closing_delimeter, treat_closed_normal_bracket_as_closing_delimeter,
            treat_eof_as_closing_delimeter) {
            Step::Done(m, q) => r matches Ok(b) && stmts_model(b.statements@) == m && final(file).pos_spec() == q,
            Step::Failed(e, q) => r matches Err(x) && err_model(x) == e && final(file).pos_spec() == q,
            Step::Stuck => false,
        },
    decreases usize::MAX - old(file).pos_spec().current_char_index, 7nat, 0nat,
{
    let ghost t = file.text();
    let ghost p = file.pos_spec();
    proof { lemma_sws(t, p); }
    file.skip_whitespaces();
    let tcb = treat_closed_block_bracket_as_closing_delimeter;
    let tcn = treat_closed_normal_bracket_as_closing_delimeter;
    let teof = treat_eof_as_closing_delimeter;
    let single = match assume_single_statement {
        Some(v) => v,
        None => {
            if file.peek() == Some('{') {
                let _ = file.next();
                false
            } else {
                true
            }
        },
    };
    match block_loop_x(file, single, tcb, tcn, teof, Vec::new()) {
        Ok(v) => Ok(SBlock::new(v)),
        Err(e) => Err(e),
    }
}

/// A block where `{` starts many statements and anything else is one.
pub fn parse_block(file: &mut File) -> (r: Result<SBlock, ParseError>)
    requires
        !(block_spec(old(file).text(), old(file).pos_spec(), None, true, false, false) is Stuck),
    ensures
        final(file).text() == old(file).text(),
        match block_spec(old(file).text(), old(file).pos_spec(), None, true, false, false) {
            Step::Done(m, q) => r matches Ok(b) && stmts_model(b.statements@) == m && final(file).pos_spec() == q,
            Step::Failed(e, q) => r matches Err(x) && err_model(x) == e && final(file).pos_spec() == q,
            Step::Stuck => false,
        },
    decreases usize::MAX - old(file).pos_spec().current_char_index, 7nat, 1nat,
{
    parse_block_advanced(file, None, true, false, false)
}

/// A block's statements after `sts`, as [`block_loop_spec`] says.
fn block_loop_x(file: &mut File, single: bool, tcb: bool, tcn: bool, teof: bool, start: Vec<SStatement>) -> (r: Result<Vec<SStatement>, ParseError>)
    requires
        !(block_loop_spec(old(file).text(), old(file).pos_spec(), single, tcb, tcn, teof, stmts_model(start@)) is Stuck),
    ensures
        final(file).text() == old(file).text(),
        block_outcome(block_loop_spec(old(file).text(), old(file).pos_spec(), single, tcb, tcn, teof, stmts_model(start@)), r, final(file).pos_spec()),
    decreases usize::MAX - old(file).pos_spec().current_char_index, 6nat, 0nat,
{
    let ghost t = file.text();
    let ghost p0 = file.pos_spec();
    let ghost res = block_loop_spec(t, p0, single, tcb, tcn, teof, stmts_model(start@));
    let mut sts = start;
    loop
        invariant
            file.text() == t,
            t == old(file).text(),
            p0 == old(file).pos_spec(),
            res == block_loop_spec(old(file).text(), old(file).pos_spec(), single, tcb, tcn, teof, stmts_model(start@)),
            block_loop_spec(t, file.pos_spec(), single, tcb, tcn, teof, stmts_model(sts@)) == res,
            file.pos_spec().current_char_index >= p0.current_char_index,
            !(res is Stuck),
        decreases usize::MAX - file.pos_spec().current_char_index,
    {
        let ghost pc = file.pos_spec();
        proof { lemma_sws(t, pc); }
        file.skip_whitespaces();
        let p1 = *file.get_pos();
        let c = file.peek();
        if c == Some(')') && tcn {
            if single {
                return Err(mk_err(ParseErrors::FoundClosingRoundBracketInSingleStatementBlockBeforeAnyStatement, p1, Some(p1)));
            }
            let _ = file.next();
            return Ok(sts);
        }
        if c == Some('}') && tcb {
            if single {
                return Err(mk_err(ParseErrors::FoundClosingCurlyBracketInSingleStatementBlockBeforeAnyStatement, p1, Some(p1)));
            }
            let _ = file.next();
            return Ok(sts);
        }
        if c.is_none() {
            if teof {
                return Ok(sts);
            }
            return Err(mk_err(ParseErrors::FoundEofInBlockBeforeStatementOrClosingCurlyBracket, p1, Some(p1)));
        }
        match parse_statement_adv(file, false) {
            Ok(x) => {
                proof { lemma_stmts_push(sts@, x); }
                sts.push(x);
                if file.peek() == Some(')') && tcn {
                    let _ = file.next();
                    return Ok(sts);
                }
                if single {
                    return Ok(sts);
                }
            },
            Err(e) => {
                return Err(e);
            },
        }
    }
}

/// `the function` with its span, or `not a real fn definition`.
fn fn_ctx_x(fs: Option<FilePosition>, q: FilePosition) -> (r: (String, Option<(FilePosition, Option<FilePosition>)>))
    ensures
        (r.0@, r.1) == fn_ctx(fs, q),
{
    let mut m = String::new();
    match fs {
        Some(f) => {
            append(&mut m, "the function");
            (m, Some((f, Some(q))))
        },
        None => {
            append(&mut m, "not a real fn definition");
            (m, None)
        },
    }
}

/// A function after its `(`, as [`function_spec`] says: its arguments,
/// then its body; `err_fn_start` is where its definition started.
pub fn parse_function(file: &mut File, err_fn_start: Option<FilePosition>) -> (r: Result<SFunction, ParseError>)
    requires
        !(function_spec(old(file).text(), old(file).pos_spec(), err_fn_start) is Stuck),
    ensures
        final(file).text() == old(file).text(),
        fn_outcome(function_spec(old(file).text(), old(file).pos_spec(), err_fn_start), r, final(file).pos_spec()),
    decreases usize::MAX - old(file).pos_spec().current_char_index, 9nat, 0nat,
{
    let ghost t = file.text();
    let ghost p = file.pos_spec();
    proof { lemma_sws(t, p); }
    file.skip_whitespaces();
    if file.peek() == Some(')') {
        let _ = file.next();
        match parse_block(file) {
            Ok(b) => {
                let f = SFunction::new(Vec::new(), b);
                assert(inputs_model(f.inputs@) =~= Seq::empty());
                Ok(f)
            },
            Err(e) => Err(e),
        }
    } else {
        args_x(file, err_fn_start)
    }
}

/// A function's arguments and body, as [`args_spec`] says from none.
fn args_x(file: &mut File, fs: Option<FilePosition>) -> (r: Result<SFunction, ParseError>)
    requires
        !(args_spec(old(file).text(), old(file).pos_spec(), Seq::empty(), fs) is Stuck),
    ensures
        final(file).text() == old(file).text(),
        fn_outcome(args_spec(old(file).text(), old(file).pos_spec(), Seq::empty(), fs), r, final(file).pos_spec()),
    decreases usize::MAX - old(file).pos_spec().current_char_index, 8nat, 0nat,
{
    let ghost t = file.text();
    let ghost p0 = file.pos_spec();
    let ghost res = args_spec(t, p0, Seq::empty(), fs);
    let mut args: Vec<(String, VType)> = Vec::new();
    assert(inputs_model(args@) =~= Seq::empty());
    loop
        invariant
            file.text() == t,
            t == old(file).text(),
            p0 == old(file).pos_spec(),
            res == args_spec(old(file).text(), old(file).pos_spec(), Seq::empty(), fs),
            args_spec(t, file.pos_spec(), inputs_model(args@), fs) == res,
            file.pos_spec().current_char_index >= p0.current_char_index,
            !(res is Stuck),
        decreases usize::MAX - file.pos_spec().current_char_index,
    {
        let name = match arg_name_x(file) {
            Ok(n) => n,
            Err(before) => {
                let q = *file.get_pos();
                let mut context = Vec::new();
                context.push(fn_ctx_x(fs, q));
                let e = ParseError { err: ParseErrors::FoundEofInFunctionArgName, location: before, location_end: Some(q), context };
                assert(context_model(e.context@) =~= seq![fn_ctx(fs, q)]);
                return Err(e);
            },
        };
        let ghost q = file.pos_spec();
        match parse_type_adv(file, true) {
            Ok((ty, brk)) => {
                let ghost im = inputs_model(args@);
                let ghost nm = name@;
                let ghost tm = ty.model();
                args.push((name, ty));
                assert(inputs_model(args@) =~= im.push((nm, tm)));
                if brk {
                    return match parse_block(file) {
                        Ok(b) => Ok(SFunction::new(args, b)),
                        Err(e) => Err(e),
                    };
                }
            },
            Err(e) => {
                proof {
                    if let Parsed::Failed(k, s2, x) = pt(t, q, true) {
                        lemma_type_err(e, k, s2, x);
                    }
                }
                return Err(e);
            },
        }
    }
}


/// The type of a script's `args`: a list of strings.
pub open spec fn args_type() -> TypeModel {
    TypeModel { types: seq![SingleTypeModel::List(TypeModel { types: seq![SingleTypeModel::String] })] }
}

/// A whole script as its main function: it takes `args`, a list of strings,
/// and its body is every statement up to the end of the text, or up to a
/// `}` that closes it.
pub fn parse_step_interpret(file: &mut File) -> (r: Result<SFunction, ParseError>)
    requires
        !(block_spec(old(file).text(), old(file).pos_spec(), Some(false), true, false, true) is Stuck),
    ensures
        final(file).text() == old(file).text(),
        match block_spec(old(file).text(), old(file).pos_spec(), Some(false), true, false, true) {
            Step::Done(m, q) => r matches Ok(f) && f.model() == (PFunction { inputs: seq![("args"@, args_type())], block: m })
                && final(file).pos_spec() == q,
            Step::Failed(e, q) => r matches Err(x) && err_model(x) == e && final(file).pos_spec() == q,
            Step::Stuck => false,
        },
{
    let b = match parse_block_advanced(file, Some(false), true, true, false) {
        Ok(b) => b,
        Err(e) => {
            return Err(e);
        },
    };
    let mut name = String::new();
    append(&mut name, "args");
    let ty = crate::script::val_type::VSingleType::List(crate::script::val_type::VSingleType::String.to()).to();
    let mut inputs: Vec<(String, VType)> = Vec::new();
    inputs.push((name, ty));
    let f = SFunction::new(inputs, b);
    assert(inputs_model(f.inputs@) =~= seq![("args"@, args_type())]);
    Ok(f)
}


proof fn lemma_switch_kind(t: Seq<char>, p: FilePosition, force: bool)
    ensures
        match switch_spec(t, p, force) {
            Step::Done((x, _), _) => *x.statement matches PKind::Switch(_, _, f) && f == force,
            _ => true,
        },
{
}

/// `switch` forces no type and `switch!` forces every type: a statement
/// that starts with `switch` and parses is a switch whose flag is false,
/// and one that starts with `switch!` is a switch whose flag is true.
pub proof fn law_switch_flag(t: Seq<char>, q1: FilePosition, s: FilePosition, ch: char)
    ensures
        match keyword_spec(t, q1, "switch"@, s, ch) {
            Step::Done((x, _), _) => *x.statement matches PKind::Switch(_, _, f) && !f,
            _ => true,
        },
        match keyword_spec(t, q1, "switch!"@, s, ch) {
            Step::Done((x, _), _) => *x.statement matches PKind::Switch(_, _, f) && f,
            _ => true,
        },
{
    reveal_strlit("fn");
    reveal_strlit("if");
    reveal_strlit("for");
    reveal_strlit("while");
    reveal_strlit("loop");
    reveal_strlit("switch");
    reveal_strlit("switch!");
    let sw = "switch"@;
    let swb = "switch!"@;
    assert(sw.len() == 6 && swb.len() == 7);
    assert("fn"@.len() == 2 && "if"@.len() == 2 && "for"@.len() == 3 && "while"@.len() == 5 && "loop"@.len() == 4);
    assert(sw != "fn"@ && sw != "if"@ && sw != "for"@ && sw != "while"@ && sw != "loop"@);
    assert(swb != "fn"@ && swb != "if"@ && swb != "for"@ && swb != "while"@ && swb != "loop"@ && swb != sw);
    lemma_switch_kind(t, q1, false);
    lemma_switch_kind(t, q1, true);
}

/// Walking `n + 1` characters is reading one and then walking `n`.
proof fn lemma_walk_front(t: Seq<char>, p: FilePosition, n: nat)
    ensures
        walk(t, p, n + 1) == walk(t, advance(p, char_at(t, p.current_char_index as int)), n),
    decreases n,
{
    let p1 = advance(p, char_at(t, p.current_char_index as int));
    assert(walk(t, p, 0) == p);
    assert(walk(t, p1, 0) == p1);
    if n > 0 {
        lemma_walk_front(t, p, (n - 1) as nat);
        let w = walk(t, p, n);
        assert(walk(t, p, n + 1) == advance(w, char_at(t, w.current_char_index as int)));
        assert(walk(t, p1, n) == advance(walk(t, p1, (n - 1) as nat), char_at(t, walk(t, p1, (n - 1) as nat).current_char_index as int)));
        assert(((n - 1) as nat) + 1 == n);
    } else {
        assert(walk(t, p, 1) == advance(walk(t, p, 0), char_at(t, walk(t, p, 0).current_char_index as int)));
    }
}

/// A string whose characters up to the closing `"` hold no `"` and no
/// backslash is exactly those characters, and reading it ends right after
/// the closing `"`.
pub proof fn law_plain_string(t: Seq<char>, p: FilePosition, buf: Seq<char>, s: FilePosition, k: nat)
    requires
        has_room(p, k + 1),
        p.current_char_index + k < t.len(),
        forall|j: int| p.current_char_index <= j < p.current_char_index + k ==> #[trigger] t[j] != '"' && t[j] != '\\',
        t[p.current_char_index + k] == '"',
    ensures
        string_spec(t, p, buf, s) == Step::Done(
            plain(PKind::Value(PValue::Str(buf + t.subrange(p.current_char_index as int, p.current_char_index + k)))),
            walk(t, p, k + 1),
        ),
    decreases k,
{
    let i = p.current_char_index as int;
    lemma_walk_front(t, p, k);
    if k == 0 {
        assert(buf + t.subrange(i, i) =~= buf);
        assert(walk(t, p, 0) == p);
    } else {
        let c = t[i];
        let q = advance(p, Some(c));
        assert(t[i] != '"' && t[i] != '\\');
        law_plain_string(t, q, buf.push(c), s, (k - 1) as nat);
        assert(buf.push(c) + t.subrange(i + 1, i + k) =~= buf + t.subrange(i, i + k));
        assert(((k - 1) as nat) + 1 == k);
    }
}

/// A backslash in a string and the character after it stand for one
/// character: a newline for `n`, a tab for `t`, the character itself for
/// anything else (so `\"` is a quote and `\\` a backslash).
pub proof fn law_string_escape(t: Seq<char>, p: FilePosition, buf: Seq<char>, s: FilePosition)
    requires
        has_room(p, 2),
        p.current_char_index + 1 < t.len(),
        t[p.current_char_index as int] == '\\',
    ensures
        string_spec(t, p, buf, s) == string_spec(t, walk(t, p, 2), buf.push(
            if t[p.current_char_index + 1] == 'n' { '\n' } else if t[p.current_char_index + 1] == 't' { '\t' } else { t[p.current_char_index + 1] }), s),
{
    lemma_walk_front(t, p, 1);
    lemma_walk_front(t, advance(p, char_at(t, p.current_char_index as int)), 0);
}

/// A name made of decimal digits that fits in an `isize` is that integer;
/// a name starting with `&` that is no number is a reference to the
/// variable named by the rest; any other name that is no number is that
/// variable.
pub proof fn law_literal_names(t: Seq<char>, q1: FilePosition, st: Seq<char>, ch: char)
    ensures
        crate::lang::run_builtin::all_digits(st) && crate::lang::run_builtin::digits_value(st) <= isize::MAX && ch != '.'
            ==> value_or_var(t, q1, st, ch) == Step::Done(
                (plain(PKind::Value(PValue::Int(crate::lang::run_builtin::digits_value(st) as isize))), true), q1),
        parse_int_spec(st) is None && st.len() > 0 && st[0] == '&'
            ==> value_or_var(t, q1, st, ch) == Step::Done((plain(PKind::Variable(st.skip(1), true)), true), q1),
        parse_int_spec(st) is None && !(st.len() > 0 && st[0] == '&')
            ==> value_or_var(t, q1, st, ch) == Step::Done((plain(PKind::Variable(st, false)), true), q1),
{
    if crate::lang::run_builtin::all_digits(st) {
        assert('0' <= st[0] <= '9');
        crate::lang::run_builtin::lemma_digits_nonneg(st);
    }
}


/// In a `.` chain, a call wraps the statement before the dot by taking it
/// as its first argument, before its own arguments; an integer wraps it as
/// a fixed index; any other wrapper is an error.
pub proof fn law_chain_wrappers(t: Seq<char>, q: FilePosition, out: PStatement, len: nat, prev: FilePosition, s: FilePosition)
    requires
        char_at(t, if q.current_char_index == 0 { 0 } else { q.current_char_index - 1 }) == Some('.'),
    ensures
        match statement_spec(t, q, true) {
            Step::Done(w, q3) => moved(q, q3) ==> match *w.statement {
                PKind::FunctionCall(f, args) => chain_spec(t, q, out, len, prev, s)
                    == chain_spec(t, q3, plain(PKind::FunctionCall(f, seq![out] + args)), len + 1, q3, s),
                PKind::Value(PValue::Int(n)) => chain_spec(t, q, out, len, prev, s)
                    == chain_spec(t, q3, plain(PKind::IndexFixed(out, n as usize)), len + 1, q3, s),
                _ => chain_spec(t, q, out, len, prev, s) is Failed,
            },
            Step::Failed(e, x) => chain_spec(t, q, out, len, prev, s) == Step::<PStatement>::Failed(e, x),
            Step::Stuck => chain_spec(t, q, out, len, prev, s) is Stuck,
        },
{
}

} // verus!
