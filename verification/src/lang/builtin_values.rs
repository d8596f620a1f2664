//! What the built-in functions compute on plain values: strings, integers
//! and lists.
use vstd::prelude::*;
use vstd::arithmetic::power::{pow, lemma_pow_strictly_increases};
use vstd::string::StringSliceAdditionalSpecFns;
use crate::text::{chars_to_string, string_chars};

verus! {

/// `p` stands in `s` at character `k`.
pub open spec fn occurs_at(s: Seq<char>, p: Seq<char>, k: int) -> bool {
    0 <= k && k + p.len() <= s.len() && s.subrange(k, k + p.len()) == p
}

/// The first character index from `k` on where `p` stands in `s`.
pub open spec fn first_from(s: Seq<char>, p: Seq<char>, k: int) -> Option<int>
    decreases s.len() + 1 - k,
{
    if k < 0 || k > s.len() {
        None
    } else if occurs_at(s, p, k) {
        Some(k)
    } else {
        first_from(s, p, k + 1)
    }
}

/// `index_of`: the character index of the first place where `p` stands in
/// `s`; `None` where it stands nowhere, and for an empty `p` in an empty `s`
/// (where there is no character to point at).
pub open spec fn index_of_spec(s: Seq<char>, p: Seq<char>) -> Option<int> {
    match first_from(s, p, 0) {
        Some(k) => if k < s.len() { Some(k) } else { None },
        None => None,
    }
}

pub proof fn lemma_first_from(s: Seq<char>, p: Seq<char>, k: int)
    requires
        0 <= k,
    ensures
        first_from(s, p, k) matches Some(j) ==> k <= j && occurs_at(s, p, j),
        first_from(s, p, k) is None <==> (forall|j: int| k <= j ==> !#[trigger] occurs_at(s, p, j)),
    decreases s.len() + 1 - k,
{
    if k <= s.len() && !occurs_at(s, p, k) {
        lemma_first_from(s, p, k + 1);
        assert forall|j: int| k <= j && first_from(s, p, k) is None implies !#[trigger] occurs_at(s, p, j) by {
            if j > k {
                assert(!occurs_at(s, p, j));
            }
        }
    }
    if k > s.len() {
        assert forall|j: int| k <= j implies !#[trigger] occurs_at(s, p, j) by {}
    }
}

/// No occurrence from `k` on comes before the first one.
pub proof fn lemma_first_minimal(s: Seq<char>, p: Seq<char>, k: int)
    ensures
        first_from(s, p, k) matches Some(j) ==> forall|i: int| k <= i < j ==> !#[trigger] occurs_at(s, p, i),
    decreases s.len() + 1 - k,
{
    if 0 <= k <= s.len() && !occurs_at(s, p, k) {
        lemma_first_minimal(s, p, k + 1);
    }
}

/// Whether `p` stands in `cs` at `k`, compared character by character.
fn occurs_at_x(cs: &Vec<char>, ps: &Vec<char>, k: usize) -> (r: bool)
    requires
        k + ps@.len() <= cs@.len(),
    ensures
        r == occurs_at(cs@, ps@, k as int),
{
    let n: usize = cs.len();
    assert(cs@.len() == n);
    let mut i: usize = 0;
    while i < ps.len()
        invariant
            i <= ps@.len(),
            k + ps@.len() <= cs@.len(),
            cs@.len() <= usize::MAX,
            forall|j: int| 0 <= j < i ==> cs@[k + j] == ps@[j],
        decreases ps@.len() - i,
    {
        if cs[k + i] != ps[i] {
            assert(cs@.subrange(k as int, k + ps@.len())[i as int] != ps@[i as int]);
            return false;
        }
        i += 1;
    }
    assert(cs@.subrange(k as int, k + ps@.len()) =~= ps@);
    true
}

/// The first character index from 0 on where `ps` stands in `cs`.
fn first_x(cs: &Vec<char>, ps: &Vec<char>) -> (r: Option<usize>)
    ensures
        r matches Some(k) ==> first_from(cs@, ps@, 0) == Some(k as int),
        r is None ==> first_from(cs@, ps@, 0) is None,
{
    if ps.len() > cs.len() {
        proof {
            lemma_first_from(cs@, ps@, 0);
            assert forall|j: int| 0 <= j implies !#[trigger] occurs_at(cs@, ps@, j) by {}
        }
        return None;
    }
    let last = cs.len() - ps.len();
    let mut k: usize = 0;
    loop
        invariant
            last + ps@.len() == cs@.len(),
            k <= last,
            first_from(cs@, ps@, k as int) == first_from(cs@, ps@, 0),
        decreases last - k,
    {
        if occurs_at_x(cs, ps, k) {
            return Some(k);
        }
        if k == last {
            proof {
                lemma_first_from(cs@, ps@, k + 1);
                assert forall|j: int| k + 1 <= j implies !#[trigger] occurs_at(cs@, ps@, j) by {}
            }
            return None;
        }
        k += 1;
    }
}

/// The `index_of` built-in: where `pat` first stands in `s`, counted in
/// characters.
pub fn index_of(s: &str, pat: &str) -> (r: Option<usize>)
    ensures
        r matches Some(k) ==> index_of_spec(s@, pat@) == Some(k as int),
        r is None ==> index_of_spec(s@, pat@) is None,
{
    let cs = string_chars(s);
    let ps = string_chars(pat);
    match first_x(&cs, &ps) {
        Some(k) => if k < cs.len() { Some(k) } else { None },
        None => None,
    }
}

/// The `contains` built-in: whether `pat` stands somewhere in `s`.
pub fn contains(s: &str, pat: &str) -> (r: bool)
    ensures
        r == (exists|k: int| #[trigger] occurs_at(s@, pat@, k)),
{
    let cs = string_chars(s);
    let ps = string_chars(pat);
    proof { lemma_first_from(cs@, ps@, 0); }
    let r = first_x(&cs, &ps);
    proof {
        if r is None {
            assert forall|k: int| !#[trigger] occurs_at(s@, pat@, k) by {
                if k >= 0 {
                    assert(!occurs_at(cs@, ps@, k));
                }
            }
        } else {
            let j = first_from(cs@, ps@, 0)->0;
            assert(occurs_at(s@, pat@, j));
        }
    }
    r.is_some()
}

/// The `starts_with` built-in.
pub fn starts_with(s: &str, pat: &str) -> (r: bool)
    ensures
        r == occurs_at(s@, pat@, 0),
{
    let cs = string_chars(s);
    let ps = string_chars(pat);
    if ps.len() > cs.len() {
        false
    } else {
        occurs_at_x(&cs, &ps, 0)
    }
}

/// The `ends_with` built-in.
pub fn ends_with(s: &str, pat: &str) -> (r: bool)
    ensures
        r == (pat@.len() <= s@.len() && occurs_at(s@, pat@, s@.len() - pat@.len())),
{
    let cs = string_chars(s);
    let ps = string_chars(pat);
    if ps.len() > cs.len() {
        false
    } else {
        occurs_at_x(&cs, &ps, cs.len() - ps.len())
    }
}

/// `c` before every character of `s` and once more at its end.
pub open spec fn interleave(s: Seq<char>, c: Seq<char>) -> Seq<char>
    decreases s.len(),
{
    if s.len() == 0 {
        c
    } else {
        c + seq![s[0]] + interleave(s.skip(1), c)
    }
}

/// `s` with each occurrence of `p` replaced by `c`, from the left and without
/// overlaps; an empty `p` stands before every character and at the end.
pub open spec fn replace_spec(s: Seq<char>, p: Seq<char>, c: Seq<char>) -> Seq<char>
    decreases s.len(),
{
    if p.len() == 0 {
        interleave(s, c)
    } else if s.len() < p.len() {
        s
    } else if s.take(p.len() as int) == p {
        c + replace_spec(s.skip(p.len() as int), p, c)
    } else {
        seq![s[0]] + replace_spec(s.skip(1), p, c)
    }
}

fn push_all(out: &mut Vec<char>, v: &Vec<char>)
    ensures
        final(out)@ == old(out)@ + v@,
{
    let mut i: usize = 0;
    while i < v.len()
        invariant
            i <= v@.len(),
            out@ == old(out)@ + v@.take(i as int),
        decreases v@.len() - i,
    {
        out.push(v[i]);
        i += 1;
        assert(out@ =~= old(out)@ + v@.take(i as int));
    }
    assert(v@.take(i as int) =~= v@);
}

/// The `replace` built-in.
pub fn replace(s: &str, pat: &str, with: &str) -> (r: String)
    ensures
        r@ == replace_spec(s@, pat@, with@),
{
    let cs = string_chars(s);
    let ps = string_chars(pat);
    let ws = string_chars(with);
    let mut out: Vec<char> = Vec::new();
    let mut i: usize = 0;
    assert(cs@.skip(0) =~= cs@);
    if ps.len() == 0 {
        while i < cs.len()
            invariant
                i <= cs@.len(),
                ps@.len() == 0,
                out@ + interleave(cs@.skip(i as int), ws@) == replace_spec(cs@, ps@, ws@),
            decreases cs@.len() - i,
        {
            let ghost before = out@;
            assert(cs@.skip(i as int).skip(1) =~= cs@.skip(i + 1));
            assert(cs@.skip(i as int)[0] == cs@[i as int]);
            push_all(&mut out, &ws);
            out.push(cs[i]);
            i += 1;
            assert(out@ + interleave(cs@.skip(i as int), ws@) =~= before + interleave(cs@.skip(i - 1), ws@));
        }
        push_all(&mut out, &ws);
        assert(cs@.skip(i as int) =~= Seq::<char>::empty());
    } else {
        while i < cs.len()
            invariant
                i <= cs@.len(),
                ps@.len() > 0,
                out@ + replace_spec(cs@.skip(i as int), ps@, ws@) == replace_spec(cs@, ps@, ws@),
            decreases cs@.len() - i,
        {
            let ghost before = out@;
            let ghost rest = cs@.skip(i as int);
            if cs.len() - i < ps.len() {
                push_all(&mut out, &chars_vec_from(&cs, i));
                assert(out@ =~= before + rest);
                i = cs.len();
                assert(cs@.skip(i as int) =~= Seq::<char>::empty());
                assert(replace_spec(Seq::<char>::empty(), ps@, ws@) =~= Seq::<char>::empty());
                assert(out@ + replace_spec(cs@.skip(i as int), ps@, ws@) =~= before + rest);
            } else if occurs_at_x(&cs, &ps, i) {
                assert(rest.take(ps@.len() as int) =~= cs@.subrange(i as int, i + ps@.len()));
                assert(rest.skip(ps@.len() as int) =~= cs@.skip(i + ps@.len()));
                push_all(&mut out, &ws);
                i += ps.len();
                assert(out@ + replace_spec(cs@.skip(i as int), ps@, ws@) =~= before + replace_spec(rest, ps@, ws@));
            } else {
                assert(rest.take(ps@.len() as int) =~= cs@.subrange(i as int, i + ps@.len()));
                assert(rest.skip(1) =~= cs@.skip(i + 1));
                assert(rest[0] == cs@[i as int]);
                out.push(cs[i]);
                i += 1;
                assert(out@ + replace_spec(cs@.skip(i as int), ps@, ws@) =~= before + replace_spec(rest, ps@, ws@));
            }
        }
        assert(cs@.skip(i as int) =~= Seq::<char>::empty());
        assert(replace_spec(Seq::<char>::empty(), ps@, ws@) =~= Seq::<char>::empty());
    }
    assert(out@ =~= replace_spec(s@, pat@, with@));
    chars_to_string(&out, 0, out.len())
}

/// The characters of `v` from `i` on.
fn chars_vec_from(v: &Vec<char>, i: usize) -> (r: Vec<char>)
    requires
        i <= v@.len(),
    ensures
        r@ == v@.skip(i as int),
{
    let mut r: Vec<char> = Vec::new();
    let mut k: usize = i;
    while k < v.len()
        invariant
            i <= k <= v@.len(),
            r@ == v@.subrange(i as int, k as int),
        decreases v@.len() - k,
    {
        r.push(v[k]);
        k += 1;
        assert(r@ =~= v@.subrange(i as int, k as int));
    }
    assert(r@ =~= v@.skip(i as int));
    r
}

/// Where `substring` starts, in characters: a negative start counts back
/// from the last byte of the text (as a length in bytes), stopping at 0.
pub open spec fn substring_start(bytes: int, left: int) -> int {
    if left >= 0 {
        left
    } else if bytes - 1 + left > 0 {
        bytes - 1 + left
    } else {
        0
    }
}

/// How many characters `substring` takes: up to `end` (counted from the
/// start of the text) for an end of at least 0, else `-end` of them; all
/// that remain when there is no end.
pub open spec fn substring_count(start: int, end: Option<int>) -> Option<int> {
    match end {
        Some(e) => if e >= 0 {
            Some(if e - start > 0 { e - start } else { 0 })
        } else {
            Some(-e)
        },
        None => None,
    }
}

/// The characters of `s` from character `start` on, at most `count` of them
/// when there is a count.
pub open spec fn substring_spec(s: Seq<char>, start: int, count: Option<int>) -> Seq<char> {
    let from = if start < s.len() { s.skip(start) } else { Seq::empty() };
    match count {
        Some(n) => if n < from.len() { from.take(n) } else { from },
        None => from,
    }
}

/// The `substring` built-in, with the start and the optional end.
pub fn substring(s: &str, left: isize, end: Option<isize>) -> (r: String)
    requires
        left != isize::MIN,
        left < 0 ==> s.spec_bytes().len() > 0,
        end matches Some(e) ==> e != isize::MIN,
    ensures
        r@ == substring_spec(s@, substring_start(s.spec_bytes().len() as int, left as int), substring_count(
            substring_start(s.spec_bytes().len() as int, left as int),
            match end { Some(e) => Some(e as int), None => None },
        )),
{
    let cs = string_chars(s);
    let bytes = s.as_bytes().len();
    let start: usize = if left >= 0 {
        left as usize
    } else {
        let back = (-left) as usize;
        if bytes - 1 > back { bytes - 1 - back } else { 0 }
    };
    let count: Option<usize> = match end {
        Some(e) => if e >= 0 {
            let e = e as usize;
            Some(if e > start { e - start } else { 0 })
        } else {
            Some((-e) as usize)
        },
        None => None,
    };
    let from = if start < cs.len() { start } else { cs.len() };
    let to = match count {
        Some(n) => if n < cs.len() - from { from + n } else { cs.len() },
        None => cs.len(),
    };
    let r = chars_to_string(&cs, from, to);
    proof {
        let st = substring_start(s.spec_bytes().len() as int, left as int);
        assert(st == start);
        let f = if st < s@.len() { s@.skip(st) } else { Seq::<char>::empty() };
        assert(f =~= cs@.subrange(from as int, cs@.len() as int));
        match count {
            Some(n) => {
                if n < f.len() {
                    assert(f.take(n as int) =~= cs@.subrange(from as int, to as int));
                } else {
                    assert(f =~= cs@.subrange(from as int, to as int));
                }
            },
            None => {
                assert(f =~= cs@.subrange(from as int, to as int));
            },
        }
    }
    r
}

/// The remainder Rust's `%` gives: it has the sign of `a`.
pub open spec fn trunc_rem(a: int, b: int) -> int {
    let m = if b >= 0 { b } else { -b };
    if a >= 0 {
        a % m
    } else {
        -((-a) % m)
    }
}

/// The `mod` built-in on integers.
pub fn int_mod(a: isize, b: isize) -> (r: isize)
    requires
        b != 0,
        !(a == isize::MIN && b == -1),
    ensures
        r == trunc_rem(a as int, b as int),
{
    match a.checked_rem(b) {
        Some(r) => r,
        None => 0,
    }
}

/// The quotient Rust's `/` gives: rounded toward zero.
pub open spec fn trunc_div(a: int, b: int) -> int {
    let q = abs(a) / abs(b);
    if (a >= 0) == (b >= 0) { q } else { -q }
}

/// The `div` built-in on integers.
pub fn int_div(a: isize, b: isize) -> (r: isize)
    requires
        b != 0,
        !(a == isize::MIN && b == -1),
    ensures
        r == trunc_div(a as int, b as int),
{
    proof {
        let x = abs(a as int);
        let d = abs(b as int);
        assert(0 <= x / d <= x) by (nonlinear_arith)
            requires
                x >= 0,
                d >= 1,
        ;
        if a == isize::MIN && b < 0 {
            assert(d >= 2);
            assert(x / d <= x / 2) by (nonlinear_arith)
                requires
                    x >= 0,
                    d >= 2,
            ;
        }
    }
    match a.checked_div(b) {
        Some(q) => q,
        None => 0,
    }
}

/// The `add` built-in on two strings: one after the other.
pub fn string_concat(a: &str, b: &str) -> (r: String)
    ensures
        r@ == a@ + b@,
{
    let mut out = String::new();
    crate::text::append(&mut out, a);
    crate::text::append(&mut out, b);
    out
}

/// `|x|`.
pub open spec fn abs(x: int) -> int {
    if x >= 0 { x } else { -x }
}

proof fn lemma_abs_pow(a: int, k: nat)
    ensures
        abs(pow(a, k)) == pow(abs(a), k),
    decreases k,
{
    reveal(pow);
    if k > 0 {
        lemma_abs_pow(a, (k - 1) as nat);
        let p = pow(a, (k - 1) as nat);
        assert(abs(a * p) == abs(a) * abs(p)) by (nonlinear_arith);
    }
}

/// What `pow` gives on integers: `a` to the power `b` cut to 32 bits, 1 for
/// an exponent of 0 and 0 for a negative one.
pub open spec fn int_pow_spec(a: int, b: isize) -> int {
    if b == 0 {
        1
    } else if b > 0 {
        pow(a, (b as u32) as nat)
    } else {
        0
    }
}

/// The `pow` built-in on integers.
pub fn int_pow(a: isize, b: isize) -> (r: isize)
    requires
        isize::MIN <= int_pow_spec(a as int, b) <= isize::MAX,
    ensures
        r == int_pow_spec(a as int, b),
{
    if b == 0 {
        return 1;
    }
    if b < 0 {
        return 0;
    }
    let e: u32 = b as u32;
    let ghost ev = e as nat;
    let mut acc: isize = 1;
    let mut i: u32 = 0;
    proof { reveal(pow); }
    while i < e
        invariant
            i <= e,
            ev == e as nat,
            isize::MIN <= pow(a as int, ev) <= isize::MAX,
            acc == pow(a as int, i as nat),
        decreases e - i,
    {
        proof {
            reveal(pow);
            let next = pow(a as int, (i + 1) as nat);
            assert(next == a * acc);
            lemma_abs_pow(a as int, (i + 1) as nat);
            lemma_abs_pow(a as int, ev);
            if abs(a as int) >= 2 && i + 1 < ev {
                lemma_pow_strictly_increases(abs(a as int) as nat, (i + 1) as nat, ev);
            }
            if abs(a as int) <= 1 {
                assert(pow(abs(a as int), (i + 1) as nat) <= 1) by {
                    lemma_pow_le_one(abs(a as int), (i + 1) as nat);
                }
            }
            assert(isize::MIN <= next <= isize::MAX);
        }
        acc = a * acc;
        i += 1;
    }
    acc
}

/// The `pow` built-in on integers, where the result fits: `None` where it
/// does not.
pub fn checked_int_pow(a: isize, b: isize) -> (r: Option<isize>)
    ensures
        r matches Some(x) ==> x == int_pow_spec(a as int, b),
        r is None <==> !(isize::MIN <= int_pow_spec(a as int, b) <= isize::MAX),
{
    if b <= 0 {
        return Some(int_pow(a, b));
    }
    let e: u32 = b as u32;
    let ghost ev = e as nat;
    let mut acc: isize = 1;
    let mut i: u32 = 0;
    proof { reveal(pow); }
    while i < e
        invariant
            i <= e,
            ev == e as nat,
            b > 0,
            ev == (b as u32) as nat,
            acc == pow(a as int, i as nat),
        decreases e - i,
    {
        let ghost next = pow(a as int, (i + 1) as nat);
        proof {
            reveal(pow);
            assert(next == a * acc);
            assert(a * acc == acc * a) by (nonlinear_arith);
        }
        match acc.checked_mul(a) {
            Some(x) => {
                acc = x;
            },
            None => {
                proof {
                    lemma_abs_pow(a as int, (i + 1) as nat);
                    lemma_abs_pow(a as int, ev);
                    if abs(a as int) <= 1 {
                        lemma_pow_le_one(abs(a as int), (i + 1) as nat);
                    }
                    assert(abs(a as int) >= 2);
                    if i + 1 < ev {
                        lemma_pow_strictly_increases(abs(a as int) as nat, (i + 1) as nat, ev);
                    }
                }
                return None;
            },
        }
        i += 1;
    }
    Some(acc)
}

proof fn lemma_pow_le_one(x: int, k: nat)
    requires
        0 <= x <= 1,
    ensures
        0 <= pow(x, k) <= 1,
    decreases k,
{
    reveal(pow);
    if k > 0 {
        lemma_pow_le_one(x, (k - 1) as nat);
        assert(0 <= x * pow(x, (k - 1) as nat) <= 1) by (nonlinear_arith)
            requires
                0 <= x <= 1,
                0 <= pow(x, (k - 1) as nat) <= 1,
        ;
    }
}

/// The `get` built-in on a list: the element at `i`, when there is one.
pub fn list_get<T>(v: &Vec<T>, i: isize) -> (r: Option<&T>)
    ensures
        (0 <= i < v@.len()) ==> r == Some(&v@[i as int]),
        !(0 <= i < v@.len()) ==> r is None,
{
    if i >= 0 && (i as usize) < v.len() {
        Some(&v[i as usize])
    } else {
        None
    }
}

/// The `get` built-in on a string: the character at `i` as a string, when
/// there is one.
pub fn string_get(s: &str, i: isize) -> (r: Option<String>)
    ensures
        (0 <= i < s@.len()) ==> (r matches Some(c) && c@ == seq![s@[i as int]]),
        !(0 <= i < s@.len()) ==> r is None,
{
    let cs = string_chars(s);
    if i >= 0 && (i as usize) < cs.len() {
        let k = i as usize;
        let r = chars_to_string(&cs, k, k + 1);
        assert(cs@.subrange(k as int, k + 1) =~= seq![s@[k as int]]);
        Some(r)
    } else {
        None
    }
}

/// The `remove` built-in: takes out the element at `i`, when there is one.
pub fn list_remove<T>(v: &mut Vec<T>, i: isize) -> (r: Option<T>)
    ensures
        (0 <= i < old(v)@.len()) ==> r == Some(old(v)@[i as int]) && final(v)@ == old(v)@.remove(i as int),
        !(0 <= i < old(v)@.len()) ==> r is None && final(v)@ == old(v)@,
{
    if i >= 0 && (i as usize) < v.len() {
        Some(v.remove(i as usize))
    } else {
        None
    }
}

/// The `insert` built-in: puts `x` at `i`.
pub fn list_insert<T>(v: &mut Vec<T>, i: isize, x: T)
    requires
        0 <= i <= old(v)@.len(),
    ensures
        final(v)@ == old(v)@.insert(i as int, x),
{
    v.insert(i as usize, x);
}

/// The `pop` built-in: takes out the last element, when there is one.
pub fn list_pop<T>(v: &mut Vec<T>) -> (r: Option<T>)
    ensures
        old(v)@.len() > 0 ==> r == Some(old(v)@.last()) && final(v)@ == old(v)@.drop_last(),
        old(v)@.len() == 0 ==> r is None && final(v)@ == old(v)@,
{
    v.pop()
}

/// The `push` built-in: appends `x`.
pub fn list_push<T>(v: &mut Vec<T>, x: T)
    ensures
        final(v)@ == old(v)@.push(x),
{
    v.push(x);
}

/// The `len` built-in on a string: its length in bytes.
pub fn string_len(s: &str) -> (r: usize)
    ensures
        r == s.spec_bytes().len(),
{
    s.as_bytes().len()
}

/// What the `regex` built-in gives for a text and a pattern: every match
/// from the left, without overlaps, or the message of the error that the
/// pattern gives.
pub uninterp spec fn regex_find(text: Seq<char>, pattern: Seq<char>) -> Result<Seq<Seq<char>>, Seq<char>>;

/// `Regex::new` of `regex` on the pattern, then `find_iter` on the text, each
/// match as a string; the error's text where the pattern is refused. What
/// that gives is only named ([`regex_find`]), not stated.
#[verifier::external_body]
fn regex_find_all(text: &str, pattern: &str) -> (r: Result<Vec<String>, String>)
    ensures
        match r {
            Ok(v) => regex_find(text@, pattern@) == Ok::<Seq<Seq<char>>, Seq<char>>(v.deep_view()),
            Err(e) => regex_find(text@, pattern@) == Err::<Seq<Seq<char>>, Seq<char>>(e@),
        },
{
    match regex::Regex::new(pattern) {
        Ok(re) => Ok(re.find_iter(text).map(|m| m.as_str().to_string()).collect()),
        Err(e) => Err(e.to_string()),
    }
}

/// The `regex` built-in: the matches of `pattern` in `text`, or the error
/// message for a pattern that is refused.
pub fn regex(text: &str, pattern: &str) -> (r: Result<Vec<String>, String>)
    ensures
        match r {
            Ok(v) => regex_find(text@, pattern@) == Ok::<Seq<Seq<char>>, Seq<char>>(v.deep_view()),
            Err(e) => regex_find(text@, pattern@) == Err::<Seq<Seq<char>>, Seq<char>>(e@),
        },
{
    regex_find_all(text, pattern)
}

} // verus!
