//! Removing comments from source text before it is parsed.
//!
//! `//` starts a comment up to the end of the line and `/*` one up to the
//! next `*/`. A backslash before `/` keeps the slash as text (so `\//` is
//! `//`), a backslash before a newline stands for a backslash, and any other
//! backslash stays as it is.
use vstd::prelude::*;

verus! {

/// The text with its comments removed. A line comment ends at a newline,
/// which stays in the text when `keep_newline` holds.
pub open spec fn strip(s: Seq<char>, keep_newline: bool) -> Seq<char>
    decreases s.len(), 1nat,
{
    if s.len() == 0 {
        Seq::empty()
    } else if s[0] == '\\' {
        if s.len() == 1 {
            seq!['\\']
        } else if s[1] == '\n' {
            seq!['\\'] + strip(s.skip(2), keep_newline)
        } else if s[1] == '/' {
            seq!['/'] + strip(s.skip(2), keep_newline)
        } else {
            seq!['\\', s[1]] + strip(s.skip(2), keep_newline)
        }
    } else if s[0] == '/' {
        if s.len() == 1 {
            seq!['/']
        } else if s[1] == '/' {
            line_comment(s.skip(2), keep_newline)
        } else if s[1] == '*' {
            block_comment(s.skip(2), keep_newline)
        } else {
            seq!['/', s[1]] + strip(s.skip(2), keep_newline)
        }
    } else {
        seq![s[0]] + strip(s.skip(1), keep_newline)
    }
}

/// The rest of the text after the start of a line comment.
pub open spec fn line_comment(s: Seq<char>, keep_newline: bool) -> Seq<char>
    decreases s.len(), 0nat,
{
    if s.len() == 0 {
        Seq::empty()
    } else if s[0] == '\n' {
        if keep_newline {
            seq!['\n'] + strip(s.skip(1), keep_newline)
        } else {
            strip(s.skip(1), keep_newline)
        }
    } else {
        line_comment(s.skip(1), keep_newline)
    }
}

/// The rest of the text after the start of a block comment. The character
/// after a `*` is always consumed, so `**/` does not end the comment.
pub open spec fn block_comment(s: Seq<char>, keep_newline: bool) -> Seq<char>
    decreases s.len(), 0nat,
{
    if s.len() == 0 {
        Seq::empty()
    } else if s[0] == '*' {
        if s.len() == 1 {
            Seq::empty()
        } else if s[1] == '/' {
            strip(s.skip(2), keep_newline)
        } else {
            block_comment(s.skip(2), keep_newline)
        }
    } else {
        block_comment(s.skip(1), keep_newline)
    }
}

/// Text with neither a slash nor a backslash has nothing to remove: it stays
/// as it is.
pub proof fn law_strip_keeps_plain_text(s: Seq<char>, keep_newline: bool)
    requires
        forall|i: int| 0 <= i < s.len() ==> #[trigger] s[i] != '/' && s[i] != '\\',
    ensures
        strip(s, keep_newline) == s,
    decreases s.len(),
{
    if s.len() > 0 {
        let t = s.skip(1);
        assert forall|i: int| 0 <= i < t.len() implies #[trigger] t[i] != '/' && t[i] != '\\' by {
            assert(t[i] == s[i + 1]);
        }
        law_strip_keeps_plain_text(t, keep_newline);
        assert(seq![s[0]] + t =~= s);
    }
}

/// The characters of `cs` with the comments removed, as [`strip`] says.
pub fn strip_comments(cs: &Vec<char>, keep_newline: bool) -> (r: Vec<char>)
    ensures
        r@ == strip(cs@, keep_newline),
{
    let n = cs.len();
    let mut out: Vec<char> = Vec::new();
    let mut i: usize = 0;
    assert(cs@.skip(0) =~= cs@);
    while i < n
        invariant
            n == cs@.len(),
            i <= n,
            out@ + strip(cs@.skip(i as int), keep_newline) == strip(cs@, keep_newline),
        decreases n - i,
    {
        let ghost rest = cs@.skip(i as int);
        let c = cs[i];
        assert(rest[0] == c);
        if c == '\\' {
            if i + 1 == n {
                assert(rest.len() == 1);
                out.push('\\');
                i += 1;
                assert(cs@.skip(i as int).len() == 0);
            } else {
                let d = cs[i + 1];
                assert(rest[1] == d);
                assert(rest.skip(2) =~= cs@.skip(i + 2));
                if d == '\n' {
                    out.push('\\');
                } else if d == '/' {
                    out.push('/');
                } else {
                    out.push('\\');
                    out.push(d);
                }
                i += 2;
            }
        } else if c == '/' {
            if i + 1 == n {
                assert(rest.len() == 1);
                out.push('/');
                i += 1;
                assert(cs@.skip(i as int).len() == 0);
            } else {
                let d = cs[i + 1];
                assert(rest[1] == d);
                assert(rest.skip(2) =~= cs@.skip(i + 2));
                if d == '/' {
                    let mut j = i + 2;
                    while j < n && cs[j] != '\n'
                        invariant
                            n == cs@.len(),
                            i + 2 <= j <= n,
                            line_comment(cs@.skip(j as int), keep_newline) == line_comment(cs@.skip(i + 2), keep_newline),
                        decreases n - j,
                    {
                        assert(cs@.skip(j as int).skip(1) =~= cs@.skip(j + 1));
                        j += 1;
                    }
                    if j < n {
                        assert(cs@.skip(j as int)[0] == '\n');
                        assert(cs@.skip(j as int).skip(1) =~= cs@.skip(j + 1));
                        if keep_newline {
                            out.push('\n');
                        }
                        i = j + 1;
                    } else {
                        assert(cs@.skip(j as int).len() == 0);
                        i = n;
                        assert(cs@.skip(i as int).len() == 0);
                    }
                } else if d == '*' {
                    let mut j = i + 2;
                    let mut closed = false;
                    while j < n
                        invariant_except_break
                            !closed,
                        invariant
                            n == cs@.len(),
                            i + 2 <= j <= n,
                            !closed ==> block_comment(cs@.skip(j as int), keep_newline) == block_comment(cs@.skip(i + 2), keep_newline),
                            closed ==> j + 2 <= n && strip(cs@.skip(j + 2), keep_newline) == block_comment(cs@.skip(i + 2), keep_newline),
                        ensures
                            closed ==> j + 2 <= n && strip(cs@.skip(j + 2), keep_newline) == block_comment(cs@.skip(i + 2), keep_newline),
                            !closed ==> block_comment(cs@.skip(j as int), keep_newline) == block_comment(cs@.skip(i + 2), keep_newline)
                                && (j >= n || (j + 1 == n && cs@[j as int] == '*')),
                        decreases n - j,
                    {
                        let ghost r = cs@.skip(j as int);
                        assert(r[0] == cs@[j as int]);
                        if cs[j] == '*' {
                            if j + 1 < n {
                                assert(r[1] == cs@[j + 1]);
                                if cs[j + 1] == '/' {
                                    assert(r.skip(2) =~= cs@.skip(j + 2));
                                    closed = true;
                                    break;
                                }
                                assert(r.skip(2) =~= cs@.skip(j + 2));
                                j += 2;
                            } else {
                                assert(r.len() == 1);
                                break;
                            }
                        } else {
                            assert(r.skip(1) =~= cs@.skip(j + 1));
                            j += 1;
                        }
                    }
                    if closed {
                        i = j + 2;
                    } else {
                        if j < n {
                            assert(cs@.skip(j as int)[0] == '*');
                            assert(cs@.skip(j as int).len() == 1);
                        }
                        assert(block_comment(cs@.skip(j as int), keep_newline) == Seq::<char>::empty());
                        i = n;
                        assert(cs@.skip(i as int).len() == 0);
                    }
                } else {
                    out.push('/');
                    out.push(d);
                    i += 2;
                }
            }
        } else {
            assert(rest.skip(1) =~= cs@.skip(i + 1));
            out.push(c);
            i += 1;
        }
        assert(out@ + strip(cs@.skip(i as int), keep_newline) =~= strip(cs@, keep_newline));
    }
    assert(cs@.skip(i as int).len() == 0);
    assert(out@ + Seq::<char>::empty() =~= out@);
    out
}

} // verus!
