//! A source file prepared for parsing, read one character at a time.
use vstd::prelude::*;
use std::path::PathBuf;
use crate::comments::{strip, strip_comments};
use crate::text::{append, chars_to_string, char_is_whitespace, decimal, is_white_space, push_decimal, string_chars, string_push};

verus! {

#[verifier::external_type_specification]
#[verifier::external_body]
pub struct ExPathBuf(PathBuf);

/// A position in a file: the index of the next character, and its line and
/// column (both counted from 0).
#[derive(Clone, Copy, Debug)]
pub struct FilePosition {
    pub current_char_index: usize,
    pub current_line: usize,
    pub current_column: usize,
}

impl FilePosition {
    /// The position as people read it, counting from 1:
    /// `line <line + 1>, col. <column + 1>`.
    pub fn display(&self) -> (r: String)
        requires
            self.current_line < usize::MAX,
            self.current_column < usize::MAX,
        ensures
            r@ == "line "@ + decimal(self.current_line as nat + 1) + ", col. "@ + decimal(self.current_column as nat + 1),
    {
        let mut s = String::new();
        append(&mut s, "line ");
        push_decimal(&mut s, self.current_line + 1);
        append(&mut s, ", col. ");
        push_decimal(&mut s, self.current_column + 1);
        s
    }
}

/// The text after the first line, when it starts with `#!`.
pub open spec fn skip_line(s: Seq<char>) -> Seq<char>
    decreases s.len(),
{
    if s.len() == 0 || s[0] == '\n' {
        s
    } else {
        skip_line(s.skip(1))
    }
}

/// The text without its leading white space.
pub open spec fn trim_start(s: Seq<char>) -> Seq<char>
    decreases s.len(),
{
    if s.len() > 0 && is_white_space(s[0]) {
        trim_start(s.skip(1))
    } else {
        s
    }
}

/// The text a file is made of: a `#!` line is dropped, then leading white
/// space, then the comments; a final newline is added where there is none.
pub open spec fn file_text(data: Seq<char>) -> Seq<char> {
    let start = if data.len() >= 2 && data[0] == '#' && data[1] == '!' {
        trim_start(skip_line(data))
    } else {
        trim_start(data)
    };
    let t = strip(start, true);
    if t.len() > 0 && t.last() == '\n' {
        t
    } else {
        t.push('\n')
    }
}

/// The indices of the newlines of `s`, in order.
pub open spec fn newline_indices(s: Seq<char>) -> Seq<int>
    decreases s.len(),
{
    if s.len() == 0 {
        Seq::empty()
    } else if s.last() == '\n' {
        newline_indices(s.drop_last()).push(s.len() - 1)
    } else {
        newline_indices(s.drop_last())
    }
}

pub proof fn lemma_newline_indices(s: Seq<char>)
    ensures
        forall|i: int| 0 <= i < newline_indices(s).len() ==> 0 <= #[trigger] newline_indices(s)[i] < s.len()
            && s[newline_indices(s)[i]] == '\n',
        forall|i: int, j: int| 0 <= i < j < newline_indices(s).len() ==> newline_indices(s)[i] < newline_indices(s)[j],
        newline_indices(s).len() <= s.len(),
    decreases s.len(),
{
    if s.len() > 0 {
        lemma_newline_indices(s.drop_last());
    }
}

/// Where line `k` starts: after the newline that ends line `k - 1`.
pub open spec fn line_start(s: Seq<char>, k: int) -> int {
    if k == 0 {
        0
    } else {
        newline_indices(s)[k - 1] + 1
    }
}

/// Where line `k` ends: at its newline, or at the end of the text for the
/// line after the last newline.
pub open spec fn line_end(s: Seq<char>, k: int) -> int {
    if k < newline_indices(s).len() {
        newline_indices(s)[k]
    } else {
        s.len() as int
    }
}

/// Skips from `start` over leading white space.
fn skip_ws(cs: &Vec<char>, start: usize) -> (r: usize)
    requires
        start <= cs@.len(),
    ensures
        start <= r <= cs@.len(),
        cs@.skip(r as int) == trim_start(cs@.skip(start as int)),
{
    let mut i = start;
    while i < cs.len() && char_is_whitespace(cs[i])
        invariant
            start <= i <= cs@.len(),
            trim_start(cs@.skip(i as int)) == trim_start(cs@.skip(start as int)),
        decreases cs@.len() - i,
    {
        assert(cs@.skip(i as int)[0] == cs@[i as int]);
        assert(cs@.skip(i as int).skip(1) =~= cs@.skip(i + 1));
        i += 1;
    }
    if i < cs.len() {
        assert(cs@.skip(i as int)[0] == cs@[i as int]);
    }
    i
}

/// The characters from `a` to `b`; empty where that is no range of the text.
pub open spec fn slice(text: Seq<char>, a: int, b: int) -> Seq<char> {
    if 0 <= a <= b <= text.len() {
        text.subrange(a, b)
    } else {
        Seq::empty()
    }
}

/// The character at index `i`, if there is one.
pub open spec fn char_at(text: Seq<char>, i: int) -> Option<char> {
    if 0 <= i < text.len() {
        Some(text[i])
    } else {
        None
    }
}

/// The position after reading `c` at `p`: the index moves on by one; a
/// newline starts the next line, any other character the next column.
pub open spec fn advance(p: FilePosition, c: Option<char>) -> FilePosition {
    FilePosition {
        current_char_index: (p.current_char_index + 1) as usize,
        current_line: if c == Some('\n') { (p.current_line + 1) as usize } else { p.current_line },
        current_column: match c {
            Some(ch) => if ch == '\n' { 0 } else { (p.current_column + 1) as usize },
            None => p.current_column,
        },
    }
}

/// The position after `n` reads from `p`.
pub open spec fn walk(text: Seq<char>, p: FilePosition, n: nat) -> FilePosition
    decreases n,
{
    if n == 0 {
        p
    } else {
        let q = walk(text, p, (n - 1) as nat);
        advance(q, char_at(text, q.current_char_index as int))
    }
}

/// Reads from `p` can go on for `n` more characters without a counter
/// passing `usize::MAX`.
pub open spec fn has_room(p: FilePosition, n: nat) -> bool {
    p.current_char_index + n < usize::MAX && p.current_line + n < usize::MAX && p.current_column + n < usize::MAX
}

/// A text that starts with neither white space nor `#!`, holds no `/` and no
/// `\\`, and ends with a newline is a file's text as it stands, so each
/// character of the file is the character of the text at that index.
pub proof fn law_plain_file_text(s: Seq<char>)
    requires
        s.len() > 0,
        !is_white_space(s[0]),
        !(s.len() >= 2 && s[0] == '#' && s[1] == '!'),
        forall|i: int| 0 <= i < s.len() ==> #[trigger] s[i] != '/' && s[i] != '\\',
        s.last() == '\n',
    ensures
        file_text(s) == s,
        forall|i: int| #[trigger] char_at(file_text(s), i) == (if 0 <= i < s.len() { Some(s[i]) } else { None::<char> }),
{
    assert(trim_start(s) == s);
    crate::comments::law_strip_keeps_plain_text(s, true);
}

/// The characters that `n` calls of `next` read from position `p`, as its
/// contract gives each one: the character at the index reached so far.
pub open spec fn reads(text: Seq<char>, p: FilePosition, n: nat) -> Seq<Option<char>> {
    Seq::new(n, |i: int| char_at(text, walk(text, p, i as nat).current_char_index as int))
}

/// Reading `n` characters from a position gives the characters at the `n`
/// indices from it (none past the end of the text), so whatever was read in
/// between, restoring a saved position with `set_pos` replays the same
/// characters.
pub proof fn law_replay(text: Seq<char>, p: FilePosition, n: nat)
    requires
        has_room(p, n),
    ensures
        reads(text, p, n) == Seq::new(n, |i: int| char_at(text, p.current_char_index + i)),
{
    assert forall|i: int| 0 <= i < n implies #[trigger] reads(text, p, n)[i] == char_at(text, p.current_char_index + i) by {
        lemma_walk(text, p, i as nat);
    }
    assert(reads(text, p, n) =~= Seq::new(n, |i: int| char_at(text, p.current_char_index + i)));
}

pub proof fn lemma_walk(text: Seq<char>, p: FilePosition, n: nat)
    requires
        has_room(p, n),
    ensures
        walk(text, p, n).current_char_index == p.current_char_index + n,
        walk(text, p, n).current_line <= p.current_line + n,
        walk(text, p, n).current_column <= p.current_column + n,
    decreases n,
{
    if n > 0 {
        lemma_walk(text, p, (n - 1) as nat);
    }
}

/// The number of characters from index `i` on that satisfy `white` (white
/// space, or with `white` false, anything but white space).
pub open spec fn run_len(text: Seq<char>, i: int, white: bool) -> nat
    decreases text.len() - i,
{
    if 0 <= i < text.len() && is_white_space(text[i]) == white {
        1 + run_len(text, i + 1, white)
    } else {
        0
    }
}

pub proof fn lemma_run_len(text: Seq<char>, i: int, white: bool)
    requires
        0 <= i,
    ensures
        i < text.len() ==> i + run_len(text, i, white) <= text.len(),
        i >= text.len() ==> run_len(text, i, white) == 0,
        forall|j: int| i <= j < i + run_len(text, i, white) ==> is_white_space(#[trigger] text[j]) == white,
        i + run_len(text, i, white) < text.len() ==> is_white_space(text[i + run_len(text, i, white)]) != white,
    decreases text.len() - i,
{
    if 0 <= i < text.len() && is_white_space(text[i]) == white {
        lemma_run_len(text, i + 1, white);
    }
}

/// The index of the first newline at or after `i`, or the length of the text.
pub open spec fn next_newline(text: Seq<char>, i: int) -> int
    decreases text.len() - i,
{
    if 0 <= i < text.len() && text[i] != '\n' {
        next_newline(text, i + 1)
    } else if i < text.len() {
        i
    } else {
        text.len() as int
    }
}

pub proof fn lemma_next_newline(text: Seq<char>, i: int)
    requires
        0 <= i <= text.len(),
    ensures
        i <= next_newline(text, i) <= text.len(),
        forall|j: int| i <= j < next_newline(text, i) ==> #[trigger] text[j] != '\n',
        next_newline(text, i) < text.len() ==> text[next_newline(text, i)] == '\n',
    decreases text.len() - i,
{
    if i < text.len() && text[i] != '\n' {
        lemma_next_newline(text, i + 1);
    }
}

/// A file's text, the indices of its newlines, and a read position with the
/// position before the last read.
pub struct File {
    path: PathBuf,
    chars: Vec<char>,
    newlines: Vec<usize>,
    pos: FilePosition,
    ppos: FilePosition,
}

impl File {
    #[verifier::type_invariant]
    spec fn wf(self) -> bool {
        &&& self.newlines@.len() == newline_indices(self.chars@).len()
        &&& forall|i: int| 0 <= i < self.newlines@.len() ==> self.newlines@[i] as int == #[trigger] newline_indices(self.chars@)[i]
    }

    /// The text of the file.
    pub closed spec fn text(&self) -> Seq<char> {
        self.chars@
    }

    /// The path the file was read from.
    pub closed spec fn path_spec(&self) -> PathBuf {
        self.path
    }

    /// The read position.
    pub closed spec fn pos_spec(&self) -> FilePosition {
        self.pos
    }

    /// The read position before the last read.
    pub closed spec fn ppos_spec(&self) -> FilePosition {
        self.ppos
    }

    /// Prepares `data` for parsing, as [`file_text`] says, and starts reading
    /// at its beginning.
    pub fn new(data: String, path: PathBuf) -> (r: Self)
        ensures
            r.text() == file_text(data@),
            r.path_spec() == path,
            r.pos_spec() == (FilePosition { current_char_index: 0, current_line: 0, current_column: 0 }),
            r.ppos_spec() == r.pos_spec(),
    {
        let cs = string_chars(data.as_str());
        let mut start: usize = 0;
        assert(cs@.skip(0) =~= cs@);
        if cs.len() >= 2 && cs[0] == '#' && cs[1] == '!' {
            while start < cs.len() && cs[start] != '\n'
                invariant
                    start <= cs@.len(),
                    skip_line(cs@.skip(start as int)) == skip_line(cs@),
                decreases cs@.len() - start,
            {
                assert(cs@.skip(start as int)[0] == cs@[start as int]);
                assert(cs@.skip(start as int).skip(1) =~= cs@.skip(start + 1));
                start += 1;
            }
            if start < cs.len() {
                assert(cs@.skip(start as int)[0] == cs@[start as int]);
            }
            assert(cs@.skip(0) =~= cs@);
        }
        assert(cs@.skip(0) =~= cs@);
        let start = skip_ws(&cs, start);
        let mut body: Vec<char> = Vec::new();
        let mut i = start;
        while i < cs.len()
            invariant
                start <= i <= cs@.len(),
                body@ == cs@.subrange(start as int, i as int),
            decreases cs@.len() - i,
        {
            body.push(cs[i]);
            i += 1;
            assert(body@ =~= cs@.subrange(start as int, i as int));
        }
        assert(body@ =~= cs@.skip(start as int));
        let mut chars = strip_comments(&body, true);
        let ghost t = chars@;
        if chars.len() == 0 || chars[chars.len() - 1] != '\n' {
            chars.push('\n');
        }
        assert(chars@ == file_text(data@));
        let mut newlines: Vec<usize> = Vec::new();
        let mut k: usize = 0;
        while k < chars.len()
            invariant
                k <= chars@.len(),
                newlines@.len() == newline_indices(chars@.take(k as int)).len(),
                forall|q: int| 0 <= q < newlines@.len() ==> newlines@[q] as int == #[trigger] newline_indices(chars@.take(k as int))[q],
            decreases chars@.len() - k,
        {
            assert(chars@.take(k + 1).drop_last() =~= chars@.take(k as int));
            if chars[k] == '\n' {
                newlines.push(k);
            }
            k += 1;
        }
        assert(chars@.take(k as int) =~= chars@);
        let pos = FilePosition { current_char_index: 0, current_line: 0, current_column: 0 };
        File { path, chars, newlines, pos, ppos: pos }
    }
    /// The path the file was read from.
    pub fn path(&self) -> (r: &PathBuf)
        ensures
            *r == self.path_spec(),
    {
        &self.path
    }

    /// The read position.
    pub fn get_pos(&self) -> (r: &FilePosition)
        ensures
            *r == self.pos_spec(),
    {
        &self.pos
    }

    /// The read position before the last read.
    pub fn get_ppos(&self) -> (r: &FilePosition)
        ensures
            *r == self.ppos_spec(),
    {
        &self.ppos
    }

    /// Moves the read position to `pos`.
    pub fn set_pos(&mut self, pos: FilePosition)
        ensures
            final(self).text() == old(self).text(),
            final(self).path_spec() == old(self).path_spec(),
            final(self).ppos_spec() == old(self).ppos_spec(),
            final(self).pos_spec() == pos,
    {
        proof { use_type_invariant(&*self); }
        self.pos = pos;
    }

    /// The character at `index`.
    pub fn get_char(&self, index: usize) -> (r: Option<char>)
        ensures
            r == char_at(self.text(), index as int),
    {
        if index < self.chars.len() {
            Some(self.chars[index])
        } else {
            None
        }
    }

    /// The character at the read position.
    pub fn peek(&self) -> (r: Option<char>)
        ensures
            r == char_at(self.text(), self.pos_spec().current_char_index as int),
    {
        self.get_char(self.pos.current_char_index)
    }

    /// Reads the character at the read position and moves past it; at the
    /// end of the text, gives `None` and still moves the index on.
    pub fn next(&mut self) -> (r: Option<char>)
        requires
            has_room(old(self).pos_spec(), 1),
        ensures
            r == char_at(old(self).text(), old(self).pos_spec().current_char_index as int),
            final(self).pos_spec() == advance(old(self).pos_spec(), r),
            final(self).ppos_spec() == old(self).pos_spec(),
            final(self).text() == old(self).text(),
            final(self).path_spec() == old(self).path_spec(),
    {
        proof { use_type_invariant(&*self); }
        self.ppos = self.pos;
        let o = self.get_char(self.pos.current_char_index);
        self.pos.current_char_index += 1;
        match o {
            Some(ch) => {
                if ch == '\n' {
                    self.pos.current_line += 1;
                    self.pos.current_column = 0;
                } else {
                    self.pos.current_column += 1;
                }
            },
            None => {},
        }
        o
    }

    /// Reads past the white space at the read position.
    pub fn skip_whitespaces(&mut self)
        requires
            has_room(old(self).pos_spec(), run_len(old(self).text(), old(self).pos_spec().current_char_index as int, true)),
        ensures
            final(self).text() == old(self).text(),
            final(self).path_spec() == old(self).path_spec(),
            final(self).pos_spec() == walk(old(self).text(), old(self).pos_spec(),
                run_len(old(self).text(), old(self).pos_spec().current_char_index as int, true)),
            run_len(old(self).text(), old(self).pos_spec().current_char_index as int, true) > 0 ==> final(self).ppos_spec()
                == walk(old(self).text(), old(self).pos_spec(),
                    (run_len(old(self).text(), old(self).pos_spec().current_char_index as int, true) - 1) as nat),
            run_len(old(self).text(), old(self).pos_spec().current_char_index as int, true) == 0 ==> final(self).ppos_spec()
                == old(self).ppos_spec(),
    {
        let ghost text = self.text();
        let ghost p0 = self.pos_spec();
        let ghost pp0 = self.ppos_spec();
        let ghost i0 = p0.current_char_index as int;
        let ghost k = run_len(text, i0, true);
        proof { lemma_run_len(text, i0, true); }
        let mut n: usize = 0;
        loop
            invariant
                self.text() == text,
                self.path_spec() == old(self).path_spec(),
                has_room(p0, k),
                i0 == p0.current_char_index,
                k == run_len(text, i0, true),
                i0 < text.len() ==> i0 + k <= text.len(),
                i0 >= text.len() ==> k == 0,
                forall|j: int| i0 <= j < i0 + k ==> is_white_space(#[trigger] text[j]),
                i0 + k < text.len() ==> !is_white_space(text[i0 + k]),
                n <= k,
                self.pos_spec() == walk(text, p0, n as nat),
                n > 0 ==> self.ppos_spec() == walk(text, p0, (n - 1) as nat),
                n == 0 ==> self.ppos_spec() == pp0,
            ensures
                n == k,
                self.pos_spec() == walk(text, p0, n as nat),
                n > 0 ==> self.ppos_spec() == walk(text, p0, (n - 1) as nat),
                n == 0 ==> self.ppos_spec() == pp0,
                self.text() == text,
                self.path_spec() == old(self).path_spec(),
            decreases k - n,
        {
            proof { lemma_walk(text, p0, n as nat); }
            match self.peek() {
                Some(ch) => {
                    if char_is_whitespace(ch) {
                        let _ = self.next();
                        n += 1;
                    } else {
                        break;
                    }
                },
                None => {
                    break;
                },
            }
        }
    }

    /// Reads up to the next white space, which stays unread, and gives what
    /// was read.
    pub fn collect_to_whitespace(&mut self) -> (r: String)
        requires
            has_room(old(self).pos_spec(), (old(self).text().len() + 1) as nat),
        ensures
            final(self).text() == old(self).text(),
            final(self).path_spec() == old(self).path_spec(),
            ({
                let text = old(self).text();
                let p0 = old(self).pos_spec();
                let i0 = p0.current_char_index as int;
                let w = run_len(text, i0, false);
                let q = walk(text, p0, w);
                &&& r@ == slice(text, i0, i0 + w)
                &&& i0 + w < text.len() ==> final(self).pos_spec() == q && final(self).ppos_spec() == q
                &&& i0 + w >= text.len() ==> final(self).pos_spec() == advance(q, None) && final(self).ppos_spec() == q
            }),
    {
        let ghost text = self.text();
        let ghost p0 = self.pos_spec();
        let ghost i0 = p0.current_char_index as int;
        let ghost w = run_len(text, i0, false);
        proof { lemma_run_len(text, i0, false); }
        let mut o = String::new();
        let mut n: usize = 0;
        loop
            invariant_except_break
                self.pos_spec() == walk(text, p0, n as nat),
                n <= w,
                o@ == slice(text, i0, i0 + n),
            invariant
                self.text() == text,
                self.path_spec() == old(self).path_spec(),
                has_room(p0, (text.len() + 1) as nat),
                i0 == p0.current_char_index,
                w == run_len(text, i0, false),
                i0 < text.len() ==> i0 + w <= text.len(),
                i0 >= text.len() ==> w == 0,
                forall|j: int| i0 <= j < i0 + w ==> !is_white_space(#[trigger] text[j]),
                i0 + w < text.len() ==> is_white_space(text[i0 + w]),
            ensures
                o@ == slice(text, i0, i0 + w),
                i0 + w < text.len() ==> self.pos_spec() == walk(text, p0, w) && self.ppos_spec() == walk(text, p0, w),
                i0 + w >= text.len() ==> self.pos_spec() == advance(walk(text, p0, w), None) && self.ppos_spec() == walk(text, p0, w),
            decreases w - n,
        {
            proof { lemma_walk(text, p0, n as nat); }
            match self.next() {
                Some(ch) => {
                    if char_is_whitespace(ch) {
                        let p = *self.get_ppos();
                        self.set_pos(p);
                        break;
                    }
                    string_push(&mut o, ch);
                    n += 1;
                    assert(o@ =~= slice(text, i0, i0 + n));
                },
                None => {
                    break;
                },
            }
        }
        o
    }

    /// Reads up to and including the next newline, and gives what was read
    /// before it.
    pub fn next_line(&mut self) -> (r: String)
        requires
            has_room(old(self).pos_spec(), (old(self).text().len() + 1) as nat),
        ensures
            final(self).text() == old(self).text(),
            final(self).path_spec() == old(self).path_spec(),
            ({
                let text = old(self).text();
                let p0 = old(self).pos_spec();
                let i0 = p0.current_char_index as int;
                let e = if i0 < text.len() { next_newline(text, i0) } else { i0 };
                let q = walk(text, p0, (e - i0) as nat);
                &&& r@ == slice(text, i0, e)
                &&& e < text.len() ==> final(self).pos_spec() == advance(q, Some('\n')) && final(self).ppos_spec() == q
                &&& e >= text.len() ==> final(self).pos_spec() == advance(q, None) && final(self).ppos_spec() == q
            }),
    {
        let ghost text = self.text();
        let ghost p0 = self.pos_spec();
        let ghost i0 = p0.current_char_index as int;
        let ghost e = if i0 < text.len() { next_newline(text, i0) } else { i0 };
        proof {
            if i0 < text.len() {
                lemma_next_newline(text, i0);
            }
        }
        let mut o = String::new();
        let mut n: usize = 0;
        loop
            invariant_except_break
                self.pos_spec() == walk(text, p0, n as nat),
                i0 + n <= e,
                o@ == slice(text, i0, i0 + n),
            invariant
                self.text() == text,
                self.path_spec() == old(self).path_spec(),
                has_room(p0, (text.len() + 1) as nat),
                i0 == p0.current_char_index,
                e == if i0 < text.len() { next_newline(text, i0) } else { i0 },
                i0 <= e,
                i0 < text.len() ==> e <= text.len(),
                forall|j: int| i0 <= j < e ==> #[trigger] text[j] != '\n',
                e < text.len() ==> text[e] == '\n',
            ensures
                o@ == slice(text, i0, e),
                e < text.len() ==> self.pos_spec() == advance(walk(text, p0, (e - i0) as nat), Some('\n'))
                    && self.ppos_spec() == walk(text, p0, (e - i0) as nat),
                e >= text.len() ==> self.pos_spec() == advance(walk(text, p0, (e - i0) as nat), None)
                    && self.ppos_spec() == walk(text, p0, (e - i0) as nat),
            decreases e - i0 - n,
        {
            proof { lemma_walk(text, p0, n as nat); }
            match self.next() {
                Some(ch) => {
                    if ch == '\n' {
                        break;
                    }
                    string_push(&mut o, ch);
                    n += 1;
                    assert(o@ =~= slice(text, i0, i0 + n));
                },
                None => {
                    break;
                },
            }
        }
        o
    }

    /// Line `line_nr` without its newline; the line after the last newline
    /// is the rest of the text.
    pub fn get_line(&self, line_nr: usize) -> (r: Option<String>)
        ensures
            r matches Some(l) ==> line_nr <= newline_indices(self.text()).len()
                && l@ == self.text().subrange(line_start(self.text(), line_nr as int), line_end(self.text(), line_nr as int)),
            r is None <==> line_nr > newline_indices(self.text()).len(),
    {
        proof {
            use_type_invariant(self);
            lemma_newline_indices(self.chars@);
        }
        let n = self.newlines.len();
        let len = self.chars.len();
        if line_nr <= n {
            proof {
                if line_nr > 0 {
                    assert(self.newlines@[line_nr - 1] as int == newline_indices(self.chars@)[line_nr - 1]);
                }
            }
            let start = if line_nr == 0 { 0 } else { self.newlines[line_nr - 1] + 1 };
            let end = if line_nr < n { self.newlines[line_nr] } else { len };
            proof {
                if line_nr > 0 {
                    assert(self.newlines@[line_nr - 1] as int == newline_indices(self.chars@)[line_nr - 1]);
                }
                if line_nr < n {
                    assert(self.newlines@[line_nr as int] as int == newline_indices(self.chars@)[line_nr as int]);
                }
                if 0 < line_nr < n {
                    assert(newline_indices(self.chars@)[line_nr - 1] < newline_indices(self.chars@)[line_nr as int]);
                }
            }
            Some(chars_to_string(&self.chars, start, end))
        } else {
            None
        }
    }

    /// Lines `from` to `to`, both included, as one text; `None` when one of
    /// them is past the line after the last newline.
    pub fn get_lines(&self, from: usize, to: usize) -> (r: Option<String>)
        requires
            from <= newline_indices(self.text()).len() && to <= newline_indices(self.text()).len()
                ==> line_start(self.text(), from as int) <= line_end(self.text(), to as int),
        ensures
            r matches Some(l) ==> l@ == self.text().subrange(line_start(self.text(), from as int), line_end(self.text(), to as int)),
            r is None <==> (from > newline_indices(self.text()).len() || to > newline_indices(self.text()).len()),
    {
        proof {
            use_type_invariant(self);
            lemma_newline_indices(self.chars@);
        }
        let n = self.newlines.len();
        let len = self.chars.len();
        let start = if from == 0 {
            0
        } else if from <= n {
            assert(self.newlines@[from - 1] as int == newline_indices(self.chars@)[from - 1]);
            self.newlines[from - 1] + 1
        } else {
            return None;
        };
        let end = if to == n {
            len
        } else if to < n {
            assert(self.newlines@[to as int] as int == newline_indices(self.chars@)[to as int]);
            self.newlines[to]
        } else {
            return None;
        };
        Some(chars_to_string(&self.chars, start, end))
    }

    /// `file[start..end]`: the characters from `start` up to `end`, or up to
    /// the end of the text when there is no character `end`; empty when there
    /// is no character `start`.
    pub fn index_range(&self, start: usize, end: usize) -> (r: String)
        requires
            start < self.text().len() && end < self.text().len() ==> start <= end,
        ensures
            start >= self.text().len() ==> r@ == Seq::<char>::empty(),
            start < self.text().len() && end < self.text().len() ==> r@ == self.text().subrange(start as int, end as int),
            start < self.text().len() && end >= self.text().len() ==> r@ == self.text().skip(start as int),
    {
        let len = self.chars.len();
        if start < len {
            if end < len {
                chars_to_string(&self.chars, start, end)
            } else {
                chars_to_string(&self.chars, start, len)
            }
        } else {
            String::new()
        }
    }

    /// `file[start..]`: the characters from `start` on, or nothing when there
    /// is no character `start`.
    pub fn index_from(&self, start: usize) -> (r: String)
        ensures
            start >= self.text().len() ==> r@ == Seq::<char>::empty(),
            start < self.text().len() ==> r@ == self.text().skip(start as int),
    {
        let len = self.chars.len();
        if start < len {
            chars_to_string(&self.chars, start, len)
        } else {
            String::new()
        }
    }

    /// `file[..end]`: the characters before `end`, or nothing when there is no
    /// character `end`.
    pub fn index_to(&self, end: usize) -> (r: String)
        ensures
            end >= self.text().len() ==> r@ == Seq::<char>::empty(),
            end < self.text().len() ==> r@ == self.text().take(end as int),
    {
        if end < self.chars.len() {
            chars_to_string(&self.chars, 0, end)
        } else {
            String::new()
        }
    }
}

} // verus!
