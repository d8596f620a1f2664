//! Colors for formatted output, and the state of an indenting formatter.
use vstd::prelude::*;
use colorize::AnsiColor;
use crate::text::{decimal, string_push};

verus! {

/// A foreground color of the terminal.
pub enum Color {
    Grey,
    Red,
    Yellow,
    Green,
    Blue,
    Cyan,
    Magenta,
}

/// The ANSI code of a color, in decimal.
pub open spec fn color_code(c: Color) -> Seq<char> {
    match c {
        Color::Grey => "37"@,
        Color::Red => "31"@,
        Color::Yellow => "33"@,
        Color::Green => "32"@,
        Color::Blue => "34"@,
        Color::Cyan => "36"@,
        Color::Magenta => "35"@,
    }
}

/// The escape character that starts an ANSI sequence.
pub open spec fn esc() -> char {
    '\u{1b}'
}

/// `r` is `s` in the color with code `code`: a text that already starts
/// with an escape sequence gets the code added to it; any other text is
/// put between the sequence that sets the color and one that resets the
/// attributes and sets the foreground and background colors `fg` and `bg`
/// back (the terminal's global colors at the time, which this does not fix).
pub open spec fn colored(code: Seq<char>, s: Seq<char>, r: Seq<char>) -> bool {
    if s.len() >= 2 && s[0] == esc() && s[1] == '[' {
        r == seq![esc(), '['] + code + seq![';'] + s.skip(2)
    } else {
        exists|fg: nat, bg: nat| #![trigger decimal(fg), decimal(bg)]
            r == seq![esc(), '['] + code + seq!['m'] + s + seq![esc(), '[', '0', ';'] + decimal(fg) + seq![';'] + decimal(bg) + seq!['m']
    }
}

/// `AnsiColor::grey` of `colorize`: the text in grey, as [`colored`] says.
#[verifier::external_body]
fn ansi_grey(s: String) -> (r: String)
    ensures
        colored("37"@, s@, r@),
{
    s.grey().to_string()
}

/// `AnsiColor::red` of `colorize`: the text in red, as [`colored`] says.
#[verifier::external_body]
fn ansi_red(s: String) -> (r: String)
    ensures
        colored("31"@, s@, r@),
{
    s.red().to_string()
}

/// `AnsiColor::yellow` of `colorize`: the text in yellow, as [`colored`] says.
#[verifier::external_body]
fn ansi_yellow(s: String) -> (r: String)
    ensures
        colored("33"@, s@, r@),
{
    s.yellow().to_string()
}

/// `AnsiColor::green` of `colorize`: the text in green, as [`colored`] says.
#[verifier::external_body]
fn ansi_green(s: String) -> (r: String)
    ensures
        colored("32"@, s@, r@),
{
    s.green().to_string()
}

/// `AnsiColor::blue` of `colorize`: the text in blue, as [`colored`] says.
#[verifier::external_body]
fn ansi_blue(s: String) -> (r: String)
    ensures
        colored("34"@, s@, r@),
{
    s.blue().to_string()
}

/// `AnsiColor::cyan` of `colorize`: the text in cyan, as [`colored`] says.
#[verifier::external_body]
fn ansi_cyan(s: String) -> (r: String)
    ensures
        colored("36"@, s@, r@),
{
    s.cyan().to_string()
}

/// `AnsiColor::magenta` of `colorize`: the text in magenta, as [`colored`] says.
#[verifier::external_body]
fn ansi_magenta(s: String) -> (r: String)
    ensures
        colored("35"@, s@, r@),
{
    s.magenta().to_string()
}

impl Color {
    /// `s` in this color.
    pub fn colorize(&self, s: String) -> (r: String)
        ensures
            colored(color_code(*self), s@, r@),
    {
        match self {
            Color::Grey => ansi_grey(s),
            Color::Red => ansi_red(s),
            Color::Yellow => ansi_yellow(s),
            Color::Green => ansi_green(s),
            Color::Blue => ansi_blue(s),
            Color::Cyan => ansi_cyan(s),
            Color::Magenta => ansi_magenta(s),
        }
    }
}

/// How deep a formatter is nested, and how many brackets are open.
pub struct FormatInfo {
    pub depth: usize,
    pub brackets: usize,
}

/// `n` copies of four spaces.
pub open spec fn indent(n: nat) -> Seq<char>
    decreases n,
{
    if n == 0 {
        Seq::empty()
    } else {
        indent((n - 1) as nat) + seq![' ', ' ', ' ', ' ']
    }
}

impl Default for FormatInfo {
    /// Depth 0, no open brackets.
    fn default() -> (r: Self)
        ensures
            r.depth == 0,
            r.brackets == 0,
    {
        FormatInfo { depth: 0, brackets: 0 }
    }
}

impl FormatInfo {
    /// One level deeper.
    pub fn go_deeper(&mut self)
        requires
            old(self).depth < usize::MAX,
        ensures
            final(self).depth == old(self).depth + 1,
            final(self).brackets == old(self).brackets,
    {
        self.depth += 1;
    }

    /// One level shallower.
    pub fn go_shallower(&mut self)
        requires
            old(self).depth > 0,
        ensures
            final(self).depth == old(self).depth - 1,
            final(self).brackets == old(self).brackets,
    {
        self.depth -= 1;
    }

    /// Four spaces for each level of depth.
    pub fn line_prefix(&self) -> (r: String)
        ensures
            r@ == indent(self.depth as nat),
    {
        let mut s = String::new();
        let mut i: usize = 0;
        while i < self.depth
            invariant
                i <= self.depth,
                s@ == indent(i as nat),
            decreases self.depth - i,
        {
            string_push(&mut s, ' ');
            string_push(&mut s, ' ');
            string_push(&mut s, ' ');
            string_push(&mut s, ' ');
            i += 1;
            assert(s@ =~= indent(i as nat));
        }
        s
    }
}

/// Whether formatted source text is colored.
pub enum ColorFormatMode {
    Plain,
    Colorize,
}

/// The colors of formatted source text: brackets take the colors in turn by
/// nesting depth, and each kind of word has its own color.
pub struct ColorFormatter {
    pub mode: ColorFormatMode,
    pub bracket_colors: Vec<Color>,
    pub variable_color: Color,
    pub keyword_if_color: Color,
    pub keyword_else_color: Color,
    pub keyword_loop_color: Color,
    pub keyword_for_color: Color,
    pub keyword_switch_color: Color,
    pub keyword_match_color: Color,
    pub function_call_color: Color,
    pub function_def_fn_color: Color,
    pub function_def_name_color: Color,
    pub value_string_quotes_color: Color,
    pub value_string_content_color: Color,
}

/// `r` is `s` as `fmt` writes a word whose color `pick` chooses: unchanged
/// without a formatter or in plain mode, else in that color (as [`colored`]
/// says).
pub open spec fn painted(fmt: Option<&ColorFormatter>, pick: spec_fn(ColorFormatter) -> Color, s: Seq<char>, r: Seq<char>) -> bool {
    match fmt {
        Some(f) => match f.mode {
            ColorFormatMode::Plain => r == s,
            ColorFormatMode::Colorize => colored(color_code(pick(*f)), s, r),
        },
        None => r == s,
    }
}

/// `s` in color `c` where `fmt` colors.
fn paint(fmt: Option<&ColorFormatter>, c: &Color, s: String) -> (r: String)
    ensures
        match fmt {
            Some(f) => match f.mode {
                ColorFormatMode::Plain => r@ == s@,
                ColorFormatMode::Colorize => colored(color_code(*c), s@, r@),
            },
            None => r@ == s@,
        },
{
    match fmt {
        Some(f) => match f.mode {
            ColorFormatMode::Plain => s,
            ColorFormatMode::Colorize => c.colorize(s),
        },
        None => s,
    }
}

impl FormatInfo {
    /// An opening bracket, in the color of the brackets open so far; one
    /// more bracket is open afterwards.
    pub fn open_bracket(&mut self, fmt: Option<&ColorFormatter>, s: String) -> (r: String)
        requires
            old(self).brackets < usize::MAX,
            fmt matches Some(f) ==> f.bracket_colors@.len() > 0,
        ensures
            final(self).brackets == old(self).brackets + 1,
            final(self).depth == old(self).depth,
            painted(fmt, |f: ColorFormatter| f.bracket_colors@[(old(self).brackets as int) % (f.bracket_colors@.len() as int)], s@, r@),
    {
        let r = match fmt {
            Some(f) => {
                let c = &f.bracket_colors[self.brackets % f.bracket_colors.len()];
                paint(fmt, c, s)
            },
            None => s,
        };
        self.brackets += 1;
        r
    }

    /// A closing bracket: one bracket fewer is open, and it takes the color
    /// of its opening bracket.
    pub fn close_bracket(&mut self, fmt: Option<&ColorFormatter>, s: String) -> (r: String)
        requires
            old(self).brackets > 0,
            fmt matches Some(f) ==> f.bracket_colors@.len() > 0,
        ensures
            final(self).brackets == old(self).brackets - 1,
            final(self).depth == old(self).depth,
            painted(fmt, |f: ColorFormatter| f.bracket_colors@[(final(self).brackets as int) % (f.bracket_colors@.len() as int)], s@, r@),
    {
        self.brackets -= 1;
        match fmt {
            Some(f) => {
                let c = &f.bracket_colors[self.brackets % f.bracket_colors.len()];
                paint(fmt, c, s)
            },
            None => s,
        }
    }

    /// The `&` before a variable, never colored.
    pub fn variable_ref_symbol(&self, _fmt: Option<&ColorFormatter>, s: String) -> (r: String)
        ensures
            r@ == s@,
    {
        s
    }

    /// A variable's name.
    pub fn variable(&self, fmt: Option<&ColorFormatter>, s: String) -> (r: String)
        ensures
            painted(fmt, |f: ColorFormatter| f.variable_color, s@, r@),
    {
        match fmt {
            Some(f) => paint(fmt, &f.variable_color, s),
            None => s,
        }
    }

    /// The keyword `if`.
    pub fn if_if(&self, fmt: Option<&ColorFormatter>, s: String) -> (r: String)
        ensures
            painted(fmt, |f: ColorFormatter| f.keyword_if_color, s@, r@),
    {
        match fmt {
            Some(f) => paint(fmt, &f.keyword_if_color, s),
            None => s,
        }
    }

    /// The keyword `else`.
    pub fn if_else(&self, fmt: Option<&ColorFormatter>, s: String) -> (r: String)
        ensures
            painted(fmt, |f: ColorFormatter| f.keyword_else_color, s@, r@),
    {
        match fmt {
            Some(f) => paint(fmt, &f.keyword_else_color, s),
            None => s,
        }
    }

    /// The keyword `loop`.
    pub fn loop_loop(&self, fmt: Option<&ColorFormatter>, s: String) -> (r: String)
        ensures
            painted(fmt, |f: ColorFormatter| f.keyword_loop_color, s@, r@),
    {
        match fmt {
            Some(f) => paint(fmt, &f.keyword_loop_color, s),
            None => s,
        }
    }

    /// The keyword `for`.
    pub fn loop_for(&self, fmt: Option<&ColorFormatter>, s: String) -> (r: String)
        ensures
            painted(fmt, |f: ColorFormatter| f.keyword_for_color, s@, r@),
    {
        match fmt {
            Some(f) => paint(fmt, &f.keyword_for_color, s),
            None => s,
        }
    }

    /// The keyword `switch`.
    pub fn kw_switch(&self, fmt: Option<&ColorFormatter>, s: String) -> (r: String)
        ensures
            painted(fmt, |f: ColorFormatter| f.keyword_switch_color, s@, r@),
    {
        match fmt {
            Some(f) => paint(fmt, &f.keyword_switch_color, s),
            None => s,
        }
    }

    /// The keyword `match`.
    pub fn kw_match(&self, fmt: Option<&ColorFormatter>, s: String) -> (r: String)
        ensures
            painted(fmt, |f: ColorFormatter| f.keyword_match_color, s@, r@),
    {
        match fmt {
            Some(f) => paint(fmt, &f.keyword_match_color, s),
            None => s,
        }
    }

    /// The name of a called function.
    pub fn fncall(&self, fmt: Option<&ColorFormatter>, s: String) -> (r: String)
        ensures
            painted(fmt, |f: ColorFormatter| f.function_call_color, s@, r@),
    {
        match fmt {
            Some(f) => paint(fmt, &f.function_call_color, s),
            None => s,
        }
    }

    /// The keyword `fn` of a function definition.
    pub fn fndef_fn(&self, fmt: Option<&ColorFormatter>, s: String) -> (r: String)
        ensures
            painted(fmt, |f: ColorFormatter| f.function_def_fn_color, s@, r@),
    {
        match fmt {
            Some(f) => paint(fmt, &f.function_def_fn_color, s),
            None => s,
        }
    }

    /// The name of a defined function.
    pub fn fndef_name(&self, fmt: Option<&ColorFormatter>, s: String) -> (r: String)
        ensures
            painted(fmt, |f: ColorFormatter| f.function_def_name_color, s@, r@),
    {
        match fmt {
            Some(f) => paint(fmt, &f.function_def_name_color, s),
            None => s,
        }
    }

    /// The quotes of a string value.
    pub fn value_string_quotes(&self, fmt: Option<&ColorFormatter>, s: String) -> (r: String)
        ensures
            painted(fmt, |f: ColorFormatter| f.value_string_quotes_color, s@, r@),
    {
        match fmt {
            Some(f) => paint(fmt, &f.value_string_quotes_color, s),
            None => s,
        }
    }

    /// The text of a string value.
    pub fn value_string_content(&self, fmt: Option<&ColorFormatter>, s: String) -> (r: String)
        ensures
            painted(fmt, |f: ColorFormatter| f.value_string_content_color, s@, r@),
    {
        match fmt {
            Some(f) => paint(fmt, &f.value_string_content_color, s),
            None => s,
        }
    }
}

} // verus!
