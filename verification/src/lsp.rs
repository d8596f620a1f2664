//! Positions in a source text as an editor counts them (line and character)
//! and as byte offsets.
use vstd::prelude::*;
use vstd::string::StringSliceAdditionalSpecFns;
use line_span::LineSpans;

verus! {

/// The byte offsets of the newlines of `b`, in order.
pub open spec fn newline_offsets(b: Seq<u8>) -> Seq<int>
    decreases b.len(),
{
    if b.len() == 0 {
        Seq::empty()
    } else if b.last() == 10u8 {
        newline_offsets(b.drop_last()).push(b.len() - 1)
    } else {
        newline_offsets(b.drop_last())
    }
}

/// The number of lines of `b` as `str::lines` counts them: a final line
/// ending does not start another line, and an empty text has none.
pub open spec fn line_count(b: Seq<u8>) -> int {
    newline_offsets(b).len() + if b.len() > 0 && b.last() != 10u8 { 1int } else { 0int }
}

/// The byte offset where line `k` starts: after the newline ending line
/// `k - 1`.
pub open spec fn line_start_offset(b: Seq<u8>, k: int) -> int {
    if k == 0 {
        0
    } else {
        newline_offsets(b)[k - 1] + 1
    }
}

/// The byte offset where line `k` ends, its line ending (`\n` or `\r\n`) not
/// included: a carriage return before the newline belongs to the ending.
pub open spec fn line_end_offset(b: Seq<u8>, k: int) -> int {
    if k < newline_offsets(b).len() {
        let nl = newline_offsets(b)[k];
        if nl > line_start_offset(b, k) && b[nl - 1] == 13u8 {
            nl - 1
        } else {
            nl
        }
    } else {
        b.len() as int
    }
}

/// A position as an editor gives it: a line number and a character offset
/// into that line, both counted from zero.
#[derive(Clone, Copy, Debug, PartialEq, Eq)]
pub struct Position {
    pub line: u32,
    pub character: u32,
}

/// Line and offset of byte `pos`, looking from line `k` on: the first line
/// whose end is not before `pos`, with the offset from its start, at least 0
/// and at most the line's length; past the last line, the end of the last
/// line (or the very start when there is no line).
pub open spec fn lsp_pos_from(b: Seq<u8>, pos: int, k: int) -> (int, int)
    decreases line_count(b) - k,
{
    if k < 0 || k >= line_count(b) {
        if line_count(b) == 0 {
            (0, 0)
        } else {
            let last = line_count(b) - 1;
            (last, line_end_offset(b, last) - line_start_offset(b, last))
        }
    } else if pos <= line_end_offset(b, k) {
        let start = line_start_offset(b, k);
        let len = line_end_offset(b, k) - start;
        let off = if pos >= start { pos - start } else { 0 };
        (k, if off < len { off } else { len })
    } else {
        lsp_pos_from(b, pos, k + 1)
    }
}

/// [`lsp_pos_from`] the first line, each number cut to 32 bits.
pub open spec fn lsp_position(b: Seq<u8>, pos: int) -> Position {
    let p = lsp_pos_from(b, pos, 0);
    Position { line: p.0 as u32, character: p.1 as u32 }
}

/// Newlines stand inside the text, in increasing order.
proof fn lemma_newline_offsets(b: Seq<u8>)
    ensures
        forall|j: int| 0 <= j < newline_offsets(b).len() ==> 0 <= #[trigger] newline_offsets(b)[j] < b.len() && b[newline_offsets(b)[j]] == 10u8,
        forall|i: int, j: int| 0 <= i < j < newline_offsets(b).len() ==> newline_offsets(b)[i] < newline_offsets(b)[j],
    decreases b.len(),
{
    if b.len() > 0 {
        let d = b.drop_last();
        lemma_newline_offsets(d);
        assert forall|j: int| 0 <= j < newline_offsets(d).len() implies d[newline_offsets(d)[j]] == b[newline_offsets(d)[j]] by {}
    }
}

/// Each line starts no later than it ends.
proof fn lemma_line_bounds(b: Seq<u8>, k: int)
    requires
        0 <= k < line_count(b),
    ensures
        0 <= line_start_offset(b, k) <= line_end_offset(b, k) <= b.len(),
{
    lemma_newline_offsets(b);
    let n = newline_offsets(b);
    if k > 0 {
        assert(n[k - 1] < b.len());
        if k < n.len() {
            assert(n[k - 1] < n[k]);
        }
    }
}

/// Looking for byte `pos` from line `i`, where every line from `i` up to
/// line `k` ends before `pos`, gives what looking from line `k` gives.
proof fn lemma_skip_lines(b: Seq<u8>, pos: int, i: int, k: int)
    requires
        0 <= i <= k < line_count(b),
        line_start_offset(b, k) <= pos,
    ensures
        lsp_pos_from(b, pos, i) == lsp_pos_from(b, pos, k),
    decreases k - i,
{
    if i < k {
        lemma_newline_offsets(b);
        let n = newline_offsets(b);
        assert(i < n.len());
        assert(line_end_offset(b, i) <= n[i]);
        if k - 1 > i {
            assert(n[i] < n[k - 1]);
        }
        assert(line_end_offset(b, i) < pos);
        lemma_skip_lines(b, pos, i + 1, k);
    }
}

/// Where a byte inside a line (its line ending not included) stands as an
/// editor position, and back: the position names that line, and its line
/// start plus its character offset is the byte again.
pub proof fn law_positions_roundtrip(b: Seq<u8>, k: int, pos: int)
    requires
        0 <= k < line_count(b),
        line_start_offset(b, k) <= pos <= line_end_offset(b, k),
        k <= u32::MAX,
        pos - line_start_offset(b, k) <= u32::MAX,
    ensures
        lsp_position(b, pos).line == k,
        line_start_offset(b, lsp_position(b, pos).line as int) + lsp_position(b, pos).character == pos,
{
    lemma_skip_lines(b, pos, 0, k);
}

/// `line_spans()` of `line-span`, then the start and end of each span: where
/// each line of the text (those of `str::lines`) starts, and where it ends
/// before its line ending.
#[verifier::external_body]
fn line_bounds(og: &str) -> (r: Vec<(usize, usize)>)
    ensures
        r@.len() == line_count(og.spec_bytes()),
        forall|k: int| 0 <= k < r@.len() ==> #[trigger] r@[k].0 == line_start_offset(og.spec_bytes(), k) && r@[k].1 == line_end_offset(og.spec_bytes(), k),
{
    og.line_spans().map(|l| (l.start(), l.end())).collect()
}

/// The byte offset of `character` bytes into line `line` of `og`, or the
/// length of `og` when it has no such line.
pub fn get_byte_pos_in_og(og: &str, line: usize, character: usize) -> (r: usize)
    requires
        line < line_count(og.spec_bytes()) ==> line_start_offset(og.spec_bytes(), line as int) + character <= usize::MAX,
    ensures
        line < line_count(og.spec_bytes()) ==> r == line_start_offset(og.spec_bytes(), line as int) + character,
        line >= line_count(og.spec_bytes()) ==> r == og.spec_bytes().len(),
{
    let spans = line_bounds(og);
    if line < spans.len() {
        spans[line].0 + character
    } else {
        og.as_bytes().len()
    }
}

/// Where byte offset `pos` of `og` stands as a line and a character offset
/// into it. An offset inside a line ending counts as the end of that line; an
/// offset past the text, as the end of the last line.
pub fn get_lsp_pos_in_og(og: &str, pos: usize) -> (r: Position)
    ensures
        r == lsp_position(og.spec_bytes(), pos as int),
{
    let ghost b = og.spec_bytes();
    let spans = line_bounds(og);
    let mut fallback = Position { line: 0, character: 0 };
    let mut i: usize = 0;
    while i < spans.len()
        invariant
            i <= spans@.len(),
            spans@.len() == line_count(b),
            b == og.spec_bytes(),
            forall|k: int| 0 <= k < spans@.len() ==> #[trigger] spans@[k].0 == line_start_offset(b, k) && spans@[k].1 == line_end_offset(b, k),
            lsp_pos_from(b, pos as int, i as int) == lsp_pos_from(b, pos as int, 0),
            i == 0 ==> fallback == (Position { line: 0, character: 0 }),
            i > 0 ==> fallback == (Position {
                line: (i - 1) as u32,
                character: (line_end_offset(b, i - 1) - line_start_offset(b, i - 1)) as u32,
            }),
        decreases spans@.len() - i,
    {
        let (start, end) = spans[i];
        proof { lemma_line_bounds(b, i as int); }
        fallback = Position { line: i as u32, character: (end - start) as u32 };
        if pos <= end {
            let off = if pos >= start { pos - start } else { 0 };
            let c = if off < end - start { off } else { end - start };
            return Position { line: i as u32, character: c as u32 };
        }
        i += 1;
    }
    fallback
}

} // verus!
