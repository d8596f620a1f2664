//! A source file prepared for parsing (the first parser's version): comments
//! are removed, and the text is read one character at a time.
use vstd::prelude::*;
use std::path::PathBuf;
use crate::comments::{strip, strip_comments};
use crate::text::{char_is_whitespace, chars_to_string, is_white_space, string_chars, string_push};
pub use crate::parsing::file::FilePosition;
use crate::parsing::file::{advance, char_at, has_room, lemma_next_newline, lemma_run_len, lemma_walk, next_newline, run_len, slice, walk};

verus! {

/// A file's text and a read position.
pub struct File {
    path: PathBuf,
    chars: Vec<char>,
    pos: FilePosition,
}

impl File {
    /// The text of the file.
    pub closed spec fn text(&self) -> Seq<char> {
        self.chars@
    }

    /// The path the file was read from.
    pub closed spec fn path_spec(&self) -> PathBuf {
        self.path
    }

    /// The read position.
    pub closed spec fn pos_spec(&self) -> FilePosition {
        self.pos
    }

    /// Removes the comments of `data`, a line comment with its newline, and
    /// starts reading at the beginning.
    pub fn new(data: String, path: PathBuf) -> (r: Self)
        ensures
            r.text() == strip(data@, false),
            r.path_spec() == path,
            r.pos_spec() == (FilePosition { current_char_index: 0, current_line: 0, current_column: 0 }),
    {
        let cs = string_chars(data.as_str());
        let chars = strip_comments(&cs, false);
        File { path, chars, pos: FilePosition { current_char_index: 0, current_line: 0, current_column: 0 } }
    }

    /// The path the file was read from.
    pub fn path(&self) -> (r: &PathBuf)
        ensures
            *r == self.path_spec(),
    {
        &self.path
    }

    /// The read position.
    pub fn get_pos(&self) -> (r: &FilePosition)
        ensures
            *r == self.pos_spec(),
    {
        &self.pos
    }

    /// Moves the read position to `pos`.
    pub fn set_pos(&mut self, pos: FilePosition)
        ensures
            final(self).text() == old(self).text(),
            final(self).path_spec() == old(self).path_spec(),
            final(self).pos_spec() == pos,
    {
        self.pos = pos;
    }

    /// The line of the read position.
    pub fn get_line(&self) -> (r: usize)
        ensures
            r == self.pos_spec().current_line,
    {
        self.pos.current_line
    }

    /// The column of the read position.
    pub fn get_column(&self) -> (r: usize)
        ensures
            r == self.pos_spec().current_column,
    {
        self.pos.current_column
    }

    /// The character index of the read position.
    pub fn get_char_index(&self) -> (r: usize)
        ensures
            r == self.pos_spec().current_char_index,
    {
        self.pos.current_char_index
    }

    /// The character at `index`.
    pub fn get_char(&self, index: usize) -> (r: Option<char>)
        ensures
            r == char_at(self.text(), index as int),
    {
        if index < self.chars.len() {
            Some(self.chars[index])
        } else {
            None
        }
    }

    /// The number of characters of the text.
    pub fn text_len(&self) -> (r: usize)
        ensures
            r == self.text().len(),
    {
        self.chars.len()
    }

    /// The character at the read position.
    pub fn peek(&self) -> (r: Option<char>)
        ensures
            r == char_at(self.text(), self.pos_spec().current_char_index as int),
    {
        self.get_char(self.pos.current_char_index)
    }

    /// Reads the character at the read position and moves past it; at the
    /// end of the text, gives `None` and still moves the index on.
    pub fn next(&mut self) -> (r: Option<char>)
        requires
            has_room(old(self).pos_spec(), 1),
        ensures
            r == char_at(old(self).text(), old(self).pos_spec().current_char_index as int),
            final(self).pos_spec() == advance(old(self).pos_spec(), r),
            final(self).text() == old(self).text(),
            final(self).path_spec() == old(self).path_spec(),
    {
        let o = self.get_char(self.pos.current_char_index);
        self.pos.current_char_index += 1;
        match o {
            Some(ch) => {
                if ch == '\n' {
                    self.pos.current_line += 1;
                    self.pos.current_column = 0;
                } else {
                    self.pos.current_column += 1;
                }
            },
            None => {},
        }
        o
    }

    /// Reads past the white space at the read position.
    pub fn skip_whitespaces(&mut self)
        requires
            has_room(old(self).pos_spec(), run_len(old(self).text(), old(self).pos_spec().current_char_index as int, true)),
        ensures
            final(self).text() == old(self).text(),
            final(self).path_spec() == old(self).path_spec(),
            final(self).pos_spec() == walk(old(self).text(), old(self).pos_spec(),
                run_len(old(self).text(), old(self).pos_spec().current_char_index as int, true)),
    {
        let ghost text = self.text();
        let ghost p0 = self.pos_spec();
        let ghost i0 = p0.current_char_index as int;
        let ghost k = run_len(text, i0, true);
        proof { lemma_run_len(text, i0, true); }
        let mut n: usize = 0;
        loop
            invariant
                self.text() == text,
                self.path_spec() == old(self).path_spec(),
                has_room(p0, k),
                i0 == p0.current_char_index,
                k == run_len(text, i0, true),
                i0 < text.len() ==> i0 + k <= text.len(),
                i0 >= text.len() ==> k == 0,
                forall|j: int| i0 <= j < i0 + k ==> is_white_space(#[trigger] text[j]),
                i0 + k < text.len() ==> !is_white_space(text[i0 + k]),
                n <= k,
                self.pos_spec() == walk(text, p0, n as nat),
            ensures
                n == k,
                self.pos_spec() == walk(text, p0, n as nat),
                self.text() == text,
                self.path_spec() == old(self).path_spec(),
            decreases k - n,
        {
            proof { lemma_walk(text, p0, n as nat); }
            match self.peek() {
                Some(ch) => {
                    if char_is_whitespace(ch) {
                        let _ = self.next();
                        n += 1;
                    } else {
                        break;
                    }
                },
                None => {
                    break;
                },
            }
        }
    }

    /// Reads up to and including the next newline, and gives what was read
    /// before it.
    pub fn next_line(&mut self) -> (r: String)
        requires
            has_room(old(self).pos_spec(), (old(self).text().len() + 1) as nat),
        ensures
            final(self).text() == old(self).text(),
            final(self).path_spec() == old(self).path_spec(),
            ({
                let text = old(self).text();
                let p0 = old(self).pos_spec();
                let i0 = p0.current_char_index as int;
                let e = if i0 < text.len() { next_newline(text, i0) } else { i0 };
                let q = walk(text, p0, (e - i0) as nat);
                &&& r@ == slice(text, i0, e)
                &&& e < text.len() ==> final(self).pos_spec() == advance(q, Some('\n'))
                &&& e >= text.len() ==> final(self).pos_spec() == advance(q, None)
            }),
    {
        let ghost text = self.text();
        let ghost p0 = self.pos_spec();
        let ghost i0 = p0.current_char_index as int;
        let ghost e = if i0 < text.len() { next_newline(text, i0) } else { i0 };
        proof {
            if i0 < text.len() {
                lemma_next_newline(text, i0);
            }
        }
        let mut o = String::new();
        let mut n: usize = 0;
        loop
            invariant_except_break
                self.pos_spec() == walk(text, p0, n as nat),
                i0 + n <= e,
                o@ == slice(text, i0, i0 + n),
            invariant
                self.text() == text,
                self.path_spec() == old(self).path_spec(),
                has_room(p0, (text.len() + 1) as nat),
                i0 == p0.current_char_index,
                e == if i0 < text.len() { next_newline(text, i0) } else { i0 },
                i0 <= e,
                i0 < text.len() ==> e <= text.len(),
                forall|j: int| i0 <= j < e ==> #[trigger] text[j] != '\n',
                e < text.len() ==> text[e] == '\n',
            ensures
                o@ == slice(text, i0, e),
                e < text.len() ==> self.pos_spec() == advance(walk(text, p0, (e - i0) as nat), Some('\n')),
                e >= text.len() ==> self.pos_spec() == advance(walk(text, p0, (e - i0) as nat), None),
            decreases e - i0 - n,
        {
            proof { lemma_walk(text, p0, n as nat); }
            match self.next() {
                Some(ch) => {
                    if ch == '\n' {
                        break;
                    }
                    string_push(&mut o, ch);
                    n += 1;
                    assert(o@ =~= slice(text, i0, i0 + n));
                },
                None => {
                    break;
                },
            }
        }
        o
    }

    /// `file[start..end]`: the characters from `start` up to `end`, or up to
    /// the end of the text when there is no character `end`; empty when there
    /// is no character `start`.
    pub fn index_range(&self, start: usize, end: usize) -> (r: String)
        requires
            start < self.text().len() && end < self.text().len() ==> start <= end,
        ensures
            start >= self.text().len() ==> r@ == Seq::<char>::empty(),
            start < self.text().len() && end < self.text().len() ==> r@ == self.text().subrange(start as int, end as int),
            start < self.text().len() && end >= self.text().len() ==> r@ == self.text().skip(start as int),
    {
        let len = self.chars.len();
        if start < len {
            if end < len {
                chars_to_string(&self.chars, start, end)
            } else {
                chars_to_string(&self.chars, start, len)
            }
        } else {
            String::new()
        }
    }

    /// `file[start..]`: the characters from `start` on, or nothing when there
    /// is no character `start`.
    pub fn index_from(&self, start: usize) -> (r: String)
        ensures
            start >= self.text().len() ==> r@ == Seq::<char>::empty(),
            start < self.text().len() ==> r@ == self.text().skip(start as int),
    {
        let len = self.chars.len();
        if start < len {
            chars_to_string(&self.chars, start, len)
        } else {
            String::new()
        }
    }

    /// `file[..end]`: the characters before `end`, or nothing when there is no
    /// character `end`.
    pub fn index_to(&self, end: usize) -> (r: String)
        ensures
            end >= self.text().len() ==> r@ == Seq::<char>::empty(),
            end < self.text().len() ==> r@ == self.text().take(end as int),
    {
        if end < self.chars.len() {
            chars_to_string(&self.chars, 0, end)
        } else {
            String::new()
        }
    }
}

} // verus!
