//! A text and its wrap policy: the lines it takes at a given width.

use vstd::prelude::*;
use vstd::string::*;
use vstd::utf8::*;

use crate::layout::{
    exact_cut, exact_lines, find_first, find_last, is_boundary, lemma_exact_cut,
    lemma_exact_lines_well_laid, lemma_truncate_lines, lemma_words_cut,
    lemma_words_lines_well_laid, skip_spaces_at, truncate_lines, window_end_at, words_cut,
    words_lines, Line, NEWLINE, SPACE,
};

verus! {

/// How a text is laid out in a given width.
#[derive(Clone, Copy, Debug, PartialEq, Eq, Structural)]
pub enum TextWrap {
    /// One line, cut at the width.
    Truncate,
    /// One line, cut at the width; a line that fills the width is painted
    /// with three dots in its last columns.
    TruncateWithEllipsis,
    /// Lines of exactly the width, broken wherever the width ends. A
    /// character with more bytes than the width ends the lines.
    Wrapped,
    /// Lines of at most the width, broken at spaces where there are any. A
    /// character with more bytes than the width ends the lines.
    WrappedWords,
    /// Reserved: word wrap with both margins flush.
    WrappedJustified,
    /// Reserved: word wrap with centered lines.
    WrappedCentered,
    /// Reserved: word wrap with lines flush right.
    WrappedRightAligned,
}

/// Why a text could not be laid out.
#[derive(Clone, Copy, Debug, PartialEq, Eq, Structural)]
pub enum LayoutError {
    /// The wrap policy is reserved and has no layout yet.
    UnimplementedPolicy,
}

/// The lines of `bytes` at `width` under `policy`; an error for the reserved
/// policies.
pub open spec fn layout(bytes: Seq<u8>, width: int, policy: TextWrap) -> Result<
    Seq<Line>,
    LayoutError,
> {
    match policy {
        TextWrap::Truncate | TextWrap::TruncateWithEllipsis => Ok(truncate_lines(bytes, width)),
        TextWrap::Wrapped => Ok(exact_lines(bytes, 0, width)),
        TextWrap::WrappedWords => Ok(words_lines(bytes, 0, width)),
        _ => Err(LayoutError::UnimplementedPolicy),
    }
}

/// The number of rows that `lines` take, held to the largest row count
/// there is.
pub open spec fn rows_of(lines: Seq<Line>) -> int {
    if lines.len() <= u16::MAX {
        lines.len() as int
    } else {
        u16::MAX as int
    }
}

/// A string with the policy by which it is laid out.
#[derive(Debug)]
pub struct Text {
    text: String,
    wrap: TextWrap,
}

impl Text {
    /// The characters of the text.
    pub closed spec fn content(&self) -> Seq<char> {
        self.text@
    }

    /// The policy by which the text is laid out.
    pub closed spec fn policy(&self) -> TextWrap {
        self.wrap
    }

    /// The bytes of the text, in which lines are counted and cut.
    pub open spec fn bytes(&self) -> Seq<u8> {
        encode_utf8(self.content())
    }

    /// The lines of the text at `width`.
    pub open spec fn lines_at(&self, width: int) -> Result<Seq<Line>, LayoutError> {
        layout(self.bytes(), width, self.policy())
    }

    /// The rows that the text takes at `width`.
    pub open spec fn height_at(&self, width: int) -> Result<int, LayoutError> {
        match self.lines_at(width) {
            Ok(lines) => Ok(rows_of(lines)),
            Err(e) => Err(e),
        }
    }

    /// A text that wraps at words.
    pub fn new(text: String) -> (t: Text)
        ensures
            t.content() == text@,
            t.policy() == TextWrap::WrappedWords,
    {
        Text { text, wrap: TextWrap::WrappedWords }
    }

    /// A text with the given policy.
    pub fn new_with_wrap(text: String, wrap: TextWrap) -> (t: Text)
        ensures
            t.content() == text@,
            t.policy() == wrap,
    {
        Text { text, wrap }
    }

    /// The policy by which the text is laid out.
    pub fn wrap(&self) -> (w: TextWrap)
        ensures
            w == self.policy(),
    {
        self.wrap
    }

    /// The piece of the text that `line` covers, where `line` is a range of
    /// the text that cuts no character.
    pub fn line_text(&self, line: &Line) -> (r: Option<&str>)
        ensures
            r is Some <==> line.within(self.bytes()),
            r is Some ==> r->Some_0.spec_bytes() == line.of(self.bytes()),
    {
        let s = self.text.as_str();
        let ghost bytes = s.spec_bytes();
        let size: usize = s.as_bytes().len();
        proof {
            encode_utf8_valid_utf8(s@);
            lemma_boundary_is_char_boundary(bytes, line.start as int);
            lemma_boundary_is_char_boundary(bytes, line.end as int);
        }
        if line.start <= line.end && line.end <= size && s.is_char_boundary(line.start)
            && s.is_char_boundary(line.end) {
            let head = s.split_at(line.end).0;
            proof {
                encode_utf8_valid_utf8(head@);
                lemma_boundary_is_char_boundary(head.spec_bytes(), line.start as int);
                if 0 < line.start < line.end {
                    assert(head.spec_bytes()[line.start as int] == bytes[line.start as int]);
                }
            }
            let piece = head.split_at(line.start).1;
            assert(piece.spec_bytes() =~= line.of(bytes));
            Some(piece)
        } else {
            None
        }
    }

    /// The string that is laid out.
    pub fn as_str(&self) -> (s: &str)
        ensures
            s@ == self.content(),
            s.spec_bytes() == self.bytes(),
    {
        self.text.as_str()
    }

    /// The number of rows the text takes at `width`: the number of its
    /// lines, held to the largest row count there is.
    pub fn get_height(&self, width: u16) -> (r: Result<u16, LayoutError>)
        ensures
            match r {
                Ok(h) => self.height_at(width as int) == Ok::<int, LayoutError>(h as int),
                Err(e) => self.height_at(width as int) == Err::<int, LayoutError>(e),
            },
    {
        match self.get_lines(width) {
            Ok(lines) => {
                let n: usize = lines.len();
                if n <= 0xffff {
                    Ok(n as u16)
                } else {
                    Ok(0xffff)
                }
            },
            Err(e) => Err(e),
        }
    }

    /// The lines of the text at `width`, by its policy. The reserved
    /// policies give an error; under every other policy the result is the
    /// lines, none of which cuts a character or exceeds the width. Width is
    /// counted in bytes, so a character that has more bytes than `width`
    /// fits in no line: under the two wrapping policies the lines end
    /// before the first such character, and it and all that follows it are
    /// left out without an error; under truncation the line ends before it.
    /// At a width of four or more there is no such character.
    pub fn get_lines(&self, width: u16) -> (r: Result<Vec<Line>, LayoutError>)
        ensures
            match r {
                Ok(lines) => self.lines_at(width as int) == Ok::<Seq<Line>, LayoutError>(lines@),
                Err(e) => self.lines_at(width as int) == Err::<Seq<Line>, LayoutError>(e),
            },
            r is Ok ==> forall|i: int|
                0 <= i < r->Ok_0.len() ==> {
                    &&& (#[trigger] r->Ok_0[i]).within(self.bytes())
                    &&& r->Ok_0[i].spec_len() <= width
                },
    {
        // The bytes of a string are counted by a `usize`.
        let size: usize = self.text.as_str().as_bytes().len();
        let r = match self.wrap {
            TextWrap::Truncate => Ok(self.get_lines_truncate(width)),
            TextWrap::TruncateWithEllipsis => Ok(self.get_lines_truncate(width)),
            TextWrap::Wrapped => Ok(self.get_lines_wrapped(width)),
            TextWrap::WrappedWords => Ok(self.get_lines_wrapped_words(width)),
            TextWrap::WrappedJustified => self.get_lines_wrapped_justified(width),
            TextWrap::WrappedCentered => self.get_lines_wrapped_centered(width),
            TextWrap::WrappedRightAligned => self.get_lines_wrapped_right_aligned(width),
        };
        proof {
            lemma_lines_fit(self, width as int);
            if r is Ok {
                let lines = self.lines_at(width as int)->Ok_0;
                assert(lines == r->Ok_0@);
                assert forall|i: int| 0 <= i < r->Ok_0.len() implies {
                    &&& (#[trigger] r->Ok_0[i]).within(self.bytes())
                    &&& r->Ok_0[i].spec_len() <= width
                } by {
                    assert(lines[i].within(self.bytes()));
                }
            }
        }
        r
    }

    /// One line: the first window of the text, whatever follows it.
    pub fn get_lines_truncate(&self, width: u16) -> (lines: Vec<Line>)
        ensures
            lines@ == truncate_lines(self.bytes(), width as int),
            lines.len() == 1,
    {
        let bytes = self.text.as_str().as_bytes();
        let end: usize = window_end_at(bytes, 0, width);
        let mut lines: Vec<Line> = Vec::new();
        lines.push(Line { start: 0, end });
        assert(lines@ =~= truncate_lines(self.bytes(), width as int));
        lines
    }

    /// Fixed-width slicing: each line is the next window of the text, or
    /// what stands before the window's first newline. The lines end at the
    /// end of the text, or before the first character that has more bytes
    /// than `width`.
    pub fn get_lines_wrapped(&self, width: u16) -> (lines: Vec<Line>)
        ensures
            lines@ == exact_lines(self.bytes(), 0, width as int),
    {
        let bytes = self.text.as_str().as_bytes();
        let mut pos: usize = 0;
        let mut lines: Vec<Line> = Vec::new();
        assert(lines@ + exact_lines(bytes@, 0, width as int) =~= exact_lines(
            bytes@,
            0,
            width as int,
        ));
        loop
            invariant
                pos <= bytes.len(),
                bytes@ == self.bytes(),
                exact_lines(bytes@, 0, width as int) == lines@ + exact_lines(
                    bytes@,
                    pos as int,
                    width as int,
                ),
            decreases bytes.len() - pos,
        {
            let end: usize = window_end_at(bytes, pos, width);
            if end <= pos {
                assert(lines@ + Seq::<Line>::empty() =~= lines@);
                return lines;
            }
            let newline: usize = find_first(bytes, NEWLINE, pos, end);
            let ghost before = lines@;
            let ghost from = pos as int;
            let ghost cut = exact_cut(bytes@, pos as int, width as int);
            proof {
                lemma_exact_cut(bytes@, pos as int, width as int);
            }
            if newline < end {
                lines.push(Line { start: pos, end: newline });
                pos = newline + 1;
            } else {
                lines.push(Line { start: pos, end });
                pos = end;
            }
            assert(lines@ + exact_lines(bytes@, pos as int, width as int) =~= before + (seq![
                Line { start: from as usize, end: cut.0 as usize },
            ] + exact_lines(bytes@, cut.1, width as int)));
        }
    }

    /// Word wrap: each line is what stands before the window's first
    /// newline, or the window up to its break; the spaces after a break are
    /// dropped. The lines end at the end of the text, or before the first
    /// character that has more bytes than `width`.
    pub fn get_lines_wrapped_words(&self, width: u16) -> (lines: Vec<Line>)
        ensures
            lines@ == words_lines(self.bytes(), 0, width as int),
    {
        let bytes = self.text.as_str().as_bytes();
        let mut pos: usize = 0;
        let mut lines: Vec<Line> = Vec::new();
        assert(lines@ + words_lines(bytes@, 0, width as int) =~= words_lines(
            bytes@,
            0,
            width as int,
        ));
        loop
            invariant
                pos <= bytes.len(),
                bytes@ == self.bytes(),
                words_lines(bytes@, 0, width as int) == lines@ + words_lines(
                    bytes@,
                    pos as int,
                    width as int,
                ),
            decreases bytes.len() - pos,
        {
            let end: usize = window_end_at(bytes, pos, width);
            if end <= pos {
                assert(lines@ + Seq::<Line>::empty() =~= lines@);
                return lines;
            }
            let to: usize = if end == bytes.len() || bytes[end] == SPACE {
                end
            } else {
                find_last(bytes, SPACE, pos, end)
            };
            let newline: usize = find_first(bytes, NEWLINE, pos, end);
            let ghost before = lines@;
            let ghost from = pos as int;
            let ghost cut = words_cut(bytes@, pos as int, width as int);
            proof {
                lemma_words_cut(bytes@, pos as int, width as int);
            }
            if newline < end {
                lines.push(Line { start: pos, end: newline });
                pos = newline + 1;
            } else {
                lines.push(Line { start: pos, end: to });
                pos = skip_spaces_at(bytes, to);
            }
            assert(lines@ + words_lines(bytes@, pos as int, width as int) =~= before + (seq![
                Line { start: from as usize, end: cut.0 as usize },
            ] + words_lines(bytes@, cut.1, width as int)));
        }
    }

    /// Reserved: there is no justified layout yet.
    pub fn get_lines_wrapped_justified(&self, width: u16) -> (r: Result<Vec<Line>, LayoutError>)
        ensures
            r is Err,
            r->Err_0 == LayoutError::UnimplementedPolicy,
    {
        Err(LayoutError::UnimplementedPolicy)
    }

    /// Reserved: there is no centered layout yet.
    pub fn get_lines_wrapped_centered(&self, width: u16) -> (r: Result<Vec<Line>, LayoutError>)
        ensures
            r is Err,
            r->Err_0 == LayoutError::UnimplementedPolicy,
    {
        Err(LayoutError::UnimplementedPolicy)
    }

    /// Reserved: there is no right-aligned layout yet.
    pub fn get_lines_wrapped_right_aligned(&self, width: u16) -> (r: Result<
        Vec<Line>,
        LayoutError,
    >)
        ensures
            r is Err,
            r->Err_0 == LayoutError::UnimplementedPolicy,
    {
        Err(LayoutError::UnimplementedPolicy)
    }
}

impl From<&str> for Text {
    /// A text that wraps at words, with the characters of `text`.
    fn from(text: &str) -> (t: Text)
        ensures
            t.content() == text@,
            t.policy() == TextWrap::WrappedWords,
    {
        Text::new(text.to_owned())
    }
}

impl vstd::std_specs::convert::FromSpecImpl<&str> for Text {
    open spec fn obeys_from_spec() -> bool {
        false
    }

    open spec fn from_spec(v: &str) -> Text {
        arbitrary()
    }
}

/// In well-formed text the boundaries are the places between characters.
pub proof fn lemma_boundary_is_char_boundary(bytes: Seq<u8>, i: int)
    requires
        valid_utf8(bytes),
    ensures
        is_boundary(bytes, i) <==> is_char_boundary(bytes, i),
{
    if 0 < i < bytes.len() {
        is_char_boundary_iff_not_is_continuation_byte(bytes, i);
    } else if i == 0 || i == bytes.len() {
        is_char_boundary_start_end_of_seq(bytes);
    } else {
        reveal_with_fuel(is_char_boundary, 1);
    }
}

/// The lines of a text never cut a character and never exceed the width.
pub proof fn lemma_lines_fit(text: &Text, width: int)
    requires
        0 <= width,
        text.bytes().len() <= usize::MAX,
    ensures
        text.lines_at(width) is Ok ==> forall|i: int|
            0 <= i < text.lines_at(width)->Ok_0.len() ==> {
                &&& (#[trigger] text.lines_at(width)->Ok_0[i]).within(text.bytes())
                &&& text.lines_at(width)->Ok_0[i].spec_len() <= width
            },
{
    let bytes = text.bytes();
    encode_utf8_valid_utf8(text.content());
    match text.policy() {
        TextWrap::Truncate | TextWrap::TruncateWithEllipsis => {
            lemma_truncate_lines(bytes, width);
        },
        TextWrap::Wrapped => {
            lemma_exact_lines_well_laid(bytes, 0, width);
        },
        TextWrap::WrappedWords => {
            lemma_words_lines_well_laid(bytes, 0, width);
        },
        _ => {},
    }
}

/// Truncation gives exactly one line, whatever the text holds.
pub proof fn lemma_truncate_single_line(text: &Text, width: int)
    requires
        text.policy() == TextWrap::Truncate || text.policy() == TextWrap::TruncateWithEllipsis,
    ensures
        text.lines_at(width) is Ok,
        text.lines_at(width)->Ok_0.len() == 1,
{
}

/// The height of a text is the number of its lines, as long as that number
/// is a row count.
pub proof fn lemma_height_is_line_count(text: &Text, width: int)
    requires
        text.lines_at(width) is Ok,
        text.lines_at(width)->Ok_0.len() <= u16::MAX,
    ensures
        text.height_at(width) == Ok::<int, LayoutError>(text.lines_at(width)->Ok_0.len() as int),
{
}

/// Two texts with the same characters and the same policy have the same
/// lines at every width: a layout depends on nothing else.
pub proof fn lemma_layout_depends_on_text_alone(a: &Text, b: &Text, width: int)
    requires
        a.content() == b.content(),
        a.policy() == b.policy(),
    ensures
        a.lines_at(width) == b.lines_at(width),
        a.height_at(width) == b.height_at(width),
{
}

} // verus!
