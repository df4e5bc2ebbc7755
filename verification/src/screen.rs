//! The screen buffer and the widgets that draw the decoration of a panel.
//! What stands here is not proved: each item says what the library takes
//! for granted of the drawing code it calls.

use vstd::prelude::*;
use vstd::string::*;

use ratatui::buffer::Buffer;

use crate::geometry::{min_int, Rect};
use crate::panel::{Borders, Padding};

verus! {

/// `ratatui::buffer::Buffer`: a grid of cells over an area of the screen.
#[verifier::external_type_specification]
#[verifier::external_body]
pub struct ExBuffer(ratatui::buffer::Buffer);

/// The symbols of the cells of a buffer, in the order in which the buffer
/// holds them: row by row, each row from left to right.
pub uninterp spec fn buffer_cells(buf: Buffer) -> Seq<Seq<char>>;

/// The area that a buffer stands for: the column and the row of its first
/// cell, its width and its height.
pub uninterp spec fn buffer_area(buf: Buffer) -> (u16, u16, u16, u16);

/// The symbols of a buffer after `Buffer::set_stringn` has printed `text`
/// from column `x` of row `y` on in at most `max_width` columns, given the
/// symbols and the area that the buffer had.
pub uninterp spec fn cells_after_text(
    cells: Seq<Seq<char>>,
    area: (u16, u16, u16, u16),
    x: u16,
    y: u16,
    text: Seq<char>,
    max_width: u16,
) -> Seq<Seq<char>>;

/// The symbols of a buffer after a block with the given title and borders
/// has been drawn into `rect`, given the symbols and the area that the
/// buffer had.
pub uninterp spec fn cells_after_block(
    cells: Seq<Seq<char>>,
    area: (u16, u16, u16, u16),
    title: Seq<char>,
    borders: u8,
    rect: (u16, u16, u16, u16),
) -> Seq<Seq<char>>;

/// The symbols of a buffer after a vertical scrollbar has been drawn at the
/// right edge of `rect`, for content of the given length scrolled to the
/// given position, with the glyphs `begin` and `end` at its two ends, given
/// the symbols and the area that the buffer had.
pub uninterp spec fn cells_after_scrollbar(
    cells: Seq<Seq<char>>,
    area: (u16, u16, u16, u16),
    rect: (u16, u16, u16, u16),
    length: usize,
    position: usize,
    begin: Seq<char>,
    end: Seq<char>,
) -> Seq<Seq<char>>;

/// The four numbers of a rectangle.
pub open spec fn corners(rect: Rect) -> (u16, u16, u16, u16) {
    (rect.x, rect.y, rect.width, rect.height)
}

/// The area that a buffer stands for.
pub open spec fn screen_rect(buf: Buffer) -> Rect {
    Rect {
        x: buffer_area(buf).0,
        y: buffer_area(buf).1,
        width: buffer_area(buf).2,
        height: buffer_area(buf).3,
    }
}

/// A grid of `count` cells is whole for `area`: it holds one cell for each
/// cell of the area.
pub open spec fn whole(count: nat, area: Rect) -> bool {
    count == area.width * area.height
}

/// `outer` holds every cell of `rect`, and `rect` ends inside the
/// coordinate space.
pub open spec fn encloses(outer: Rect, rect: Rect) -> bool {
    &&& rect.fits()
    &&& outer.x <= rect.x
    &&& outer.y <= rect.y
    &&& rect.x + rect.width <= outer.spec_right()
    &&& rect.y + rect.height <= outer.spec_bottom()
}

/// Reads the field `area` of a `ratatui::buffer::Buffer`.
#[verifier::external_body]
pub(crate) fn buffer_rect(buf: &Buffer) -> (r: Rect)
    ensures
        r == screen_rect(*buf),
{
    Rect { x: buf.area.x, y: buf.area.y, width: buf.area.width, height: buf.area.height }
}

/// Reads the length of the field `content` of a `ratatui::buffer::Buffer`:
/// the number of cells that the buffer holds.
#[verifier::external_body]
pub(crate) fn buffer_len(buf: &Buffer) -> (n: usize)
    ensures
        n == buffer_cells(*buf).len(),
{
    buf.content.len()
}

/// Calls `ratatui::buffer::Buffer::set_stringn` with the default style. The
/// call starts at a cell of a whole buffer, since that function indexes the
/// buffer at the cell it starts from. It keeps the area and the number of
/// cells; of the symbols the contract says only that they depend on nothing
/// but the arguments and the buffer as it was.
#[verifier::external_body]
pub(crate) fn print_at(buf: &mut Buffer, x: u16, y: u16, text: &str, max_width: u16)
    requires
        whole(buffer_cells(*old(buf)).len(), screen_rect(*old(buf))),
        screen_rect(*old(buf)).spec_contains(x, y),
    ensures
        buffer_area(*final(buf)) == buffer_area(*old(buf)),
        buffer_cells(*final(buf)).len() == buffer_cells(*old(buf)).len(),
        buffer_cells(*final(buf)) == cells_after_text(
            buffer_cells(*old(buf)),
            buffer_area(*old(buf)),
            x,
            y,
            text@,
            max_width,
        ),
{
    buf.set_stringn(x, y, text, max_width as usize, ratatui::style::Style::default());
}

/// The right edge of what is drawn of `rect` on a buffer over `screen`: the
/// nearer of the two right edges.
pub open spec fn clipped_right(screen: Rect, rect: Rect) -> int {
    min_int(rect.spec_right(), screen.spec_right())
}

/// Draws a `ratatui::widgets::Block` with the given title and borders by
/// its `WidgetRef::render_ref`. The buffer is whole. The title is short
/// enough for its width and one more column to be a column count, which
/// the drawing code adds up without a check. What is drawn ends before the
/// last column there is: the code that prints the title counts columns
/// with a saturating sum and would index the buffer at that column, which
/// no buffer holds. The call keeps the area and the number of cells; of
/// the symbols the contract says only that they depend on nothing but the
/// arguments and the buffer as it was.
#[verifier::external_body]
pub(crate) fn draw_block(buf: &mut Buffer, title: &str, borders: Borders, rect: Rect)
    requires
        whole(buffer_cells(*old(buf)).len(), screen_rect(*old(buf))),
        title.spec_bytes().len() < u16::MAX,
        clipped_right(screen_rect(*old(buf)), rect) < u16::MAX,
    ensures
        buffer_area(*final(buf)) == buffer_area(*old(buf)),
        buffer_cells(*final(buf)).len() == buffer_cells(*old(buf)).len(),
        buffer_cells(*final(buf)) == cells_after_block(
            buffer_cells(*old(buf)),
            buffer_area(*old(buf)),
            title@,
            borders.bits,
            corners(rect),
        ),
{
    let sides = ratatui::widgets::Borders::from_bits_truncate(borders.bits);
    let block = ratatui::widgets::Block::default().title(title).borders(sides);
    let area = ratatui::layout::Rect { x: rect.x, y: rect.y, width: rect.width, height: rect.height };
    ratatui::widgets::WidgetRef::render_ref(&block, area, buf);
}

/// Draws a vertical `ratatui::widgets::Scrollbar` at the right edge of
/// `rect` by its `StatefulWidget::render`, for content of the given length
/// scrolled to the given position, with the glyphs `begin` and `end` at its
/// two ends. The buffer is whole and holds every cell of `rect`, and `rect`
/// has a column: the drawing code takes the last column of `rect` and
/// indexes the buffer there. The call keeps the area and the number of
/// cells; of the symbols the contract says only that they depend on
/// nothing but the arguments and the buffer as it was.
#[verifier::external_body]
pub(crate) fn draw_scrollbar(
    buf: &mut Buffer,
    rect: Rect,
    length: usize,
    position: usize,
    begin: &str,
    end: &str,
)
    requires
        whole(buffer_cells(*old(buf)).len(), screen_rect(*old(buf))),
        encloses(screen_rect(*old(buf)), rect),
        rect.width > 0,
    ensures
        buffer_area(*final(buf)) == buffer_area(*old(buf)),
        buffer_cells(*final(buf)).len() == buffer_cells(*old(buf)).len(),
        buffer_cells(*final(buf)) == cells_after_scrollbar(
            buffer_cells(*old(buf)),
            buffer_area(*old(buf)),
            corners(rect),
            length,
            position,
            begin@,
            end@,
        ),
{
    let side = ratatui::widgets::ScrollbarOrientation::VerticalRight;
    let ends = ratatui::widgets::Scrollbar::new(side).begin_symbol(Some(begin));
    let bar = ends.end_symbol(Some(end));
    let mut state = ratatui::widgets::ScrollbarState::new(length).position(position);
    let area = ratatui::layout::Rect { x: rect.x, y: rect.y, width: rect.width, height: rect.height };
    ratatui::widgets::StatefulWidget::render(bar, area, buf, &mut state);
}

/// `a - b`, or 0 where `b` is the larger.
pub open spec fn sub_or_zero(a: int, b: int) -> int {
    if a >= b {
        a - b
    } else {
        0
    }
}

/// `a + b`, held to the largest coordinate there is.
pub open spec fn add_capped(a: int, b: int) -> int {
    min_int(a + b, u16::MAX as int)
}

/// The room inside a titled block drawn into `area`: one column less for
/// each side border, one row less for the title row and one for a bottom
/// border, then the padding taken off on all four sides. The corner never
/// moves past the far edge of `area` by more than the padding, and the size
/// never goes below zero.
pub open spec fn inner_area(borders: Borders, padding: Padding, area: Rect) -> Rect {
    let x = if borders.spec_left() {
        min_int(add_capped(area.x as int, 1), area.spec_right())
    } else {
        area.x as int
    };
    let width = if borders.spec_left() {
        sub_or_zero(area.width as int, 1)
    } else {
        area.width as int
    };
    let y = min_int(add_capped(area.y as int, 1), area.spec_bottom());
    let height = sub_or_zero(area.height as int, 1);
    let width = if borders.spec_right() {
        sub_or_zero(width, 1)
    } else {
        width
    };
    let height = if borders.spec_bottom() {
        sub_or_zero(height, 1)
    } else {
        height
    };
    Rect {
        x: add_capped(x, padding.left as int) as u16,
        y: add_capped(y, padding.top as int) as u16,
        width: sub_or_zero(width, padding.left + padding.right) as u16,
        height: sub_or_zero(height, padding.top + padding.bottom) as u16,
    }
}

/// Calls `ratatui::widgets::Block::inner` on a block with a title at the
/// top, the given borders and the given padding. The contract repeats what
/// that function computes; it leaves out the paddings whose sum on one axis
/// does not fit in 16 bits, which the function adds without a check.
#[verifier::external_body]
pub(crate) fn block_inner(title: &str, borders: Borders, padding: Padding, area: Rect) -> (inner:
    Rect)
    requires
        padding.left + padding.right <= u16::MAX,
        padding.top + padding.bottom <= u16::MAX,
    ensures
        inner == inner_area(borders, padding, area),
{
    let sides = ratatui::widgets::Borders::from_bits_truncate(borders.bits);
    let pad = ratatui::widgets::Padding::new(padding.left, padding.right, padding.top, padding.bottom);
    let block = ratatui::widgets::Block::default().title(title).borders(sides).padding(pad);
    let outer = ratatui::layout::Rect { x: area.x, y: area.y, width: area.width, height: area.height };
    let inner = block.inner(outer);
    Rect { x: inner.x, y: inner.y, width: inner.width, height: inner.height }
}

} // verus!
