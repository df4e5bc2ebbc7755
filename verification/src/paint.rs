//! What a text paints into a rectangle: one stroke for each row that is
//! seen, or a cut line and three dots.

use ratatui::buffer::Buffer;
use vstd::prelude::*;
use vstd::string::*;
use vstd::utf8::*;

use crate::geometry::{min_int, Rect};
use crate::screen::{
    buffer_area, buffer_cells, buffer_len, buffer_rect, cells_after_text, corners, print_at,
    screen_rect, whole,
};
use crate::layout::{lemma_truncate_lines, truncate_lines, window_end, window_end_at, Line};
use crate::text::{layout, lemma_lines_fit, LayoutError, Text, TextWrap};

verus! {

/// One call of the line painter.
#[derive(Clone, Copy, Debug, PartialEq, Eq, Structural)]
pub enum Stroke {
    /// The bytes `line` of the text, from column `x` of row `y` on, in at
    /// most `max_width` columns.
    Piece { x: u16, y: u16, line: Line, max_width: u16 },
    /// Three dots from column `x` of row `y` on.
    Dots { x: u16, y: u16 },
}

/// The number of columns from the left edge of `area` to its right edge.
pub open spec fn span(area: Rect) -> int {
    area.spec_right() - area.x
}

/// The number of rows from the top edge of `area` to its bottom edge.
pub open spec fn rise(area: Rect) -> int {
    area.spec_bottom() - area.y
}

/// A text is painted with dots where its policy asks for them, its single
/// line fills the width, the width holds the three dots, and the rectangle
/// has a row to paint in.
pub open spec fn dots_apply(bytes: Seq<u8>, policy: TextWrap, area: Rect) -> bool {
    &&& policy == TextWrap::TruncateWithEllipsis
    &&& 3 <= span(area)
    &&& 0 < rise(area)
    &&& truncate_lines(bytes, span(area))[0].spec_len() == span(area)
}

/// The strokes of a line cut three columns short, with the dots in the last
/// three columns of the top row.
pub open spec fn dotted_strokes(bytes: Seq<u8>, area: Rect) -> Seq<Stroke> {
    seq![
        Stroke::Piece {
            x: area.x,
            y: area.y,
            line: Line { start: 0, end: window_end(bytes, 0, span(area) - 3) as usize },
            max_width: span(area) as u16,
        },
        Stroke::Dots { x: (area.spec_right() - 3) as u16, y: area.y },
    ]
}

/// The strokes of `lines`, one row each from the top of `area` down, as far
/// as the rows of `area` go.
pub open spec fn row_strokes(lines: Seq<Line>, area: Rect) -> Seq<Stroke> {
    Seq::new(
        min_int(lines.len() as int, rise(area)) as nat,
        |i: int|
            Stroke::Piece {
                x: area.x,
                y: (area.y + i) as u16,
                line: lines[i],
                max_width: span(area) as u16,
            },
    )
}

/// The strokes that paint a text with the given bytes and policy into
/// `area`; an error for the reserved policies.
pub open spec fn text_strokes(bytes: Seq<u8>, policy: TextWrap, area: Rect) -> Result<
    Seq<Stroke>,
    LayoutError,
> {
    match layout(bytes, span(area), policy) {
        Err(e) => Err(e),
        Ok(lines) => if dots_apply(bytes, policy, area) {
            Ok(dotted_strokes(bytes, area))
        } else {
            Ok(row_strokes(lines, area))
        },
    }
}

impl Text {
    /// The strokes that paint the text into `area`.
    pub open spec fn strokes_at(&self, area: Rect) -> Result<Seq<Stroke>, LayoutError> {
        text_strokes(self.bytes(), self.policy(), area)
    }

    /// The strokes that paint the text into `area`: its lines at the width
    /// of `area`, row by row from the top while rows are left; or, for a
    /// truncated line that fills the width under the policy with dots, the
    /// line cut three columns short and the dots after it.
    pub fn strokes(&self, area: Rect) -> (r: Result<Vec<Stroke>, LayoutError>)
        ensures
            match r {
                Ok(strokes) => self.strokes_at(area) == Ok::<Seq<Stroke>, LayoutError>(strokes@),
                Err(e) => self.strokes_at(area) == Err::<Seq<Stroke>, LayoutError>(e),
            },
    {
        let left: u16 = area.left();
        let top: u16 = area.top();
        let width: u16 = area.right() - left;
        let rows: u16 = area.bottom() - top;
        let lines = match self.get_lines(width) {
            Ok(lines) => lines,
            Err(e) => {
                return Err(e);
            },
        };
        let mut strokes: Vec<Stroke> = Vec::new();
        let dotted: bool = match self.wrap() {
            TextWrap::TruncateWithEllipsis => width >= 3 && rows > 0 && lines[0].len()
                == width as usize,
            _ => false,
        };
        if dotted {
            let bytes = self.as_str().as_bytes();
            let cut: usize = window_end_at(bytes, 0, width - 3);
            strokes.push(Stroke::Piece { x: left, y: top, line: Line { start: 0, end: cut }, max_width: width });
            strokes.push(Stroke::Dots { x: left + (width - 3), y: top });
            assert(strokes@ =~= dotted_strokes(self.bytes(), area));
            return Ok(strokes);
        }
        let mut i: usize = 0;
        while i < lines.len() && i < rows as usize
            invariant
                i <= lines.len(),
                i <= rows,
                rows == rise(area),
                top == area.y,
                left == area.x,
                width == span(area),
                strokes.len() == i,
                forall|k: int|
                    0 <= k < i ==> strokes[k] == (Stroke::Piece {
                        x: left,
                        y: (top + k) as u16,
                        line: lines[k],
                        max_width: width,
                    }),
            decreases lines.len() - i,
        {
            strokes.push(Stroke::Piece { x: left, y: top + i as u16, line: lines[i], max_width: width });
            i += 1;
        }
        assert(strokes@ =~= row_strokes(lines@, area));
        Ok(strokes)
    }
}

/// The characters that a stroke prints, for a text with the given bytes.
pub open spec fn stroke_text(bytes: Seq<u8>, stroke: Stroke) -> Seq<char> {
    match stroke {
        Stroke::Piece { line, .. } => decode_utf8(line.of(bytes)),
        Stroke::Dots { .. } => "..."@,
    }
}

/// A stroke lands on a grid of cells over `screen`: the grid is whole, the
/// stroke starts at one of its cells, and what it prints is a range of the
/// text that cuts no character.
pub open spec fn lands(cells: Seq<Seq<char>>, screen: Rect, bytes: Seq<u8>, stroke: Stroke) -> bool {
    &&& whole(cells.len(), screen)
    &&& match stroke {
        Stroke::Piece { x, y, line, .. } => screen.spec_contains(x, y) && line.within(bytes),
        Stroke::Dots { x, y } => screen.spec_contains(x, y),
    }
}

/// The cells after one stroke: printed on where the stroke lands, left as
/// they are where it does not.
pub open spec fn after_stroke(
    cells: Seq<Seq<char>>,
    screen: Rect,
    bytes: Seq<u8>,
    stroke: Stroke,
) -> Seq<Seq<char>> {
    if lands(cells, screen, bytes, stroke) {
        match stroke {
            Stroke::Piece { x, y, max_width, .. } => cells_after_text(
                cells,
                corners(screen),
                x,
                y,
                stroke_text(bytes, stroke),
                max_width,
            ),
            Stroke::Dots { x, y } => cells_after_text(
                cells,
                corners(screen),
                x,
                y,
                stroke_text(bytes, stroke),
                3,
            ),
        }
    } else {
        cells
    }
}

/// The cells after the first `n` of `strokes`, one after the other.
pub open spec fn after_strokes(
    cells: Seq<Seq<char>>,
    screen: Rect,
    bytes: Seq<u8>,
    strokes: Seq<Stroke>,
    n: int,
) -> Seq<Seq<char>>
    decreases n,
{
    if n <= 0 {
        cells
    } else {
        after_stroke(
            after_strokes(cells, screen, bytes, strokes, n - 1),
            screen,
            bytes,
            strokes[n - 1],
        )
    }
}

/// The cells after a text has been painted into `area`: after all its
/// strokes, or as they were where the text has no layout.
pub open spec fn after_text(cells: Seq<Seq<char>>, screen: Rect, text: &Text, area: Rect) -> Seq<
    Seq<char>,
> {
    match text.strokes_at(area) {
        Ok(strokes) => after_strokes(cells, screen, text.bytes(), strokes, strokes.len() as int),
        Err(_) => cells,
    }
}

impl Text {
    /// Prints `strokes` of this text into `buf`, each where it lands.
    pub fn paint(&self, strokes: &Vec<Stroke>, buf: &mut Buffer)
        ensures
            buffer_area(*final(buf)) == buffer_area(*old(buf)),
            buffer_cells(*final(buf)).len() == buffer_cells(*old(buf)).len(),
            buffer_cells(*final(buf)) == after_strokes(
                buffer_cells(*old(buf)),
                screen_rect(*old(buf)),
                self.bytes(),
                strokes@,
                strokes.len() as int,
            ),
    {
        let screen: Rect = buffer_rect(buf);
        let cells: u64 = buffer_len(buf) as u64;
        let sound: bool = cells == screen.area();
        let ghost bytes = self.bytes();
        let mut i: usize = 0;
        while i < strokes.len()
            invariant
                i <= strokes.len(),
                bytes == self.bytes(),
                screen == screen_rect(*old(buf)),
                buffer_area(*buf) == buffer_area(*old(buf)),
                buffer_cells(*buf).len() == buffer_cells(*old(buf)).len(),
                sound == whole(buffer_cells(*buf).len(), screen),
                buffer_cells(*buf) == after_strokes(
                    buffer_cells(*old(buf)),
                    screen,
                    bytes,
                    strokes@,
                    i as int,
                ),
            decreases strokes.len() - i,
        {
            match strokes[i] {
                Stroke::Piece { x, y, line, max_width } => {
                    if sound && screen.contains(x, y) {
                        match self.line_text(&line) {
                            Some(piece) => {
                                proof {
                                    encode_utf8_decode_utf8(piece@);
                                }
                                print_at(buf, x, y, piece, max_width);
                            },
                            None => {},
                        }
                    }
                },
                Stroke::Dots { x, y } => {
                    if sound && screen.contains(x, y) {
                        print_at(buf, x, y, "...", 3);
                    }
                },
            }
            i += 1;
        }
    }

    /// Paints the text into `area` of `buf`: lays it out at the width of
    /// `area` and prints its strokes. A text without a layout leaves the
    /// buffer as it was.
    pub fn render_ref(&self, area: Rect, buf: &mut Buffer) -> (r: Result<(), LayoutError>)
        ensures
            buffer_area(*final(buf)) == buffer_area(*old(buf)),
            buffer_cells(*final(buf)).len() == buffer_cells(*old(buf)).len(),
            buffer_cells(*final(buf)) == after_text(
                buffer_cells(*old(buf)),
                screen_rect(*old(buf)),
                self,
                area,
            ),
            match self.strokes_at(area) {
                Ok(_) => r is Ok,
                Err(e) => r == Err::<(), LayoutError>(e),
            },
    {
        match self.strokes(area) {
            Ok(strokes) => {
                self.paint(&strokes, buf);
                Ok(())
            },
            Err(e) => Err(e),
        }
    }
}

/// The strokes of a text stay inside the rectangle it is painted into: each
/// line is printed in a row of its own from the top down, in rows above the
/// bottom, from the left edge on and in no more columns than the rectangle
/// has; the dots end at the right edge of the top row.
pub proof fn lemma_strokes_stay_inside(text: &Text, area: Rect, i: int)
    requires
        text.bytes().len() <= usize::MAX,
        text.strokes_at(area) is Ok,
        0 <= i < text.strokes_at(area)->Ok_0.len(),
    ensures
        match text.strokes_at(area)->Ok_0[i] {
            Stroke::Piece { x, y, line, max_width } => {
                &&& x == area.x
                &&& area.y <= y < area.spec_bottom()
                &&& max_width == span(area)
                &&& line.within(text.bytes())
                &&& line.spec_len() <= max_width
                &&& !dots_apply(text.bytes(), text.policy(), area) ==> y == area.y + i
                    && text.lines_at(span(area))->Ok_0[i] == line
            },
            Stroke::Dots { x, y } => {
                &&& y == area.y
                &&& area.x <= x
                &&& x + 3 == area.spec_right()
                &&& i == 1
            },
        },
{
    let bytes = text.bytes();
    lemma_lines_fit(text, span(area));
    if dots_apply(bytes, text.policy(), area) {
        encode_utf8_valid_utf8(text.content());
        lemma_truncate_lines(bytes, span(area) - 3);
    } else {
        let lines = text.lines_at(span(area))->Ok_0;
        assert(lines[i].within(bytes));
    }
}

} // verus!
