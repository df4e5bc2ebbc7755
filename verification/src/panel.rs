//! A panel: an optional titled block around texts stacked top to bottom,
//! with a scrollbar that shows how much of them does not fit.

use ratatui::buffer::Buffer;
use vstd::prelude::*;
use vstd::string::*;
use vstd::utf8::*;

use crate::geometry::{min_int, Rect};
use crate::paint::{after_text, rise, span};
use crate::screen::{
    add_capped, block_inner, buffer_area, buffer_cells, buffer_len, buffer_rect,
    cells_after_block, cells_after_scrollbar, clipped_right, corners, draw_block, draw_scrollbar,
    encloses,
    inner_area, screen_rect, sub_or_zero, whole,
};
use crate::text::{LayoutError, Text};

verus! {

/// The sides of a block that carry a border, one bit each.
#[derive(Clone, Copy, Debug, PartialEq, Eq, Structural)]
pub struct Borders {
    pub bits: u8,
}

impl Borders {
    /// The top side carries a border.
    pub open spec fn spec_top(self) -> bool {
        self.bits & 0b0001 != 0
    }

    /// The right side carries a border.
    pub open spec fn spec_right(self) -> bool {
        self.bits & 0b0010 != 0
    }

    /// The bottom side carries a border.
    pub open spec fn spec_bottom(self) -> bool {
        self.bits & 0b0100 != 0
    }

    /// The left side carries a border.
    pub open spec fn spec_left(self) -> bool {
        self.bits & 0b1000 != 0
    }

    /// The borders on every side.
    pub open spec fn spec_all() -> Borders {
        Borders { bits: 0b1111 }
    }

    /// No border.
    pub fn none() -> (b: Borders)
        ensures
            !b.spec_top() && !b.spec_right() && !b.spec_bottom() && !b.spec_left(),
    {
        assert(0u8 & 0b0001 == 0 && 0u8 & 0b0010 == 0 && 0u8 & 0b0100 == 0 && 0u8 & 0b1000 == 0)
            by (bit_vector);
        Borders { bits: 0 }
    }

    /// A border on every side.
    pub fn all() -> (b: Borders)
        ensures
            b == Borders::spec_all(),
            b.spec_top() && b.spec_right() && b.spec_bottom() && b.spec_left(),
    {
        assert(0b1111u8 & 0b0001 != 0 && 0b1111u8 & 0b0010 != 0 && 0b1111u8 & 0b0100 != 0
            && 0b1111u8 & 0b1000 != 0) by (bit_vector);
        Borders { bits: 0b1111 }
    }

    /// Whether the top side carries a border.
    pub fn top(&self) -> (r: bool)
        ensures
            r == self.spec_top(),
    {
        self.bits & 0b0001 != 0
    }

    /// Whether the right side carries a border.
    pub fn right(&self) -> (r: bool)
        ensures
            r == self.spec_right(),
    {
        self.bits & 0b0010 != 0
    }

    /// Whether the bottom side carries a border.
    pub fn bottom(&self) -> (r: bool)
        ensures
            r == self.spec_bottom(),
    {
        self.bits & 0b0100 != 0
    }

    /// Whether the left side carries a border.
    pub fn left(&self) -> (r: bool)
        ensures
            r == self.spec_left(),
    {
        self.bits & 0b1000 != 0
    }
}

/// The empty cells between the border of a block and what it holds.
#[derive(Clone, Copy, Debug, PartialEq, Eq, Structural)]
pub struct Padding {
    pub left: u16,
    pub right: u16,
    pub top: u16,
    pub bottom: u16,
}

impl Padding {
    /// The padding with the given cells on each side.
    pub fn new(left: u16, right: u16, top: u16, bottom: u16) -> (p: Padding)
        ensures
            p == (Padding { left, right, top, bottom }),
    {
        Padding { left, right, top, bottom }
    }

    /// `x` cells left and right, `y` cells above and below.
    pub fn symmetric(x: u16, y: u16) -> (p: Padding)
        ensures
            p == (Padding { left: x, right: x, top: y, bottom: y }),
    {
        Padding { left: x, right: x, top: y, bottom: y }
    }

    /// Both sums of opposite sides are cell counts.
    pub open spec fn spec_fits(self) -> bool {
        self.left + self.right <= u16::MAX && self.top + self.bottom <= u16::MAX
    }

    /// Whether both sums of opposite sides are cell counts.
    pub fn fits(&self) -> (r: bool)
        ensures
            r == self.spec_fits(),
    {
        self.left <= u16::MAX - self.right && self.top <= u16::MAX - self.bottom
    }
}

/// The block around a panel: its title, its borders and its padding.
#[derive(Debug)]
pub struct Decoration {
    pub title: String,
    pub borders: Borders,
    pub padding: Padding,
}

impl Decoration {
    /// The room that the block leaves inside `area`; none where the padding
    /// is more than any area holds.
    pub open spec fn spec_inner(&self, area: Rect) -> Rect {
        if self.padding.spec_fits() {
            inner_area(self.borders, self.padding, area)
        } else {
            Rect { x: area.x, y: area.y, width: 0, height: 0 }
        }
    }

    /// The room that the block leaves inside `area`.
    pub fn inner(&self, area: Rect) -> (r: Rect)
        ensures
            r == self.spec_inner(area),
    {
        if self.padding.fits() {
            block_inner(self.title.as_str(), self.borders, self.padding, area)
        } else {
            Rect { x: area.x, y: area.y, width: 0, height: 0 }
        }
    }
}

/// What a panel can hold.
#[derive(Debug)]
pub enum PanelWidget {
    Text(Text),
}

impl PanelWidget {
    /// The rows that the widget takes at `width`.
    pub open spec fn height_at(&self, width: int) -> Result<int, LayoutError> {
        match self {
            PanelWidget::Text(text) => text.height_at(width),
        }
    }

    /// The rows that the widget takes at `width`.
    pub fn get_height(&self, width: u16) -> (r: Result<u16, LayoutError>)
        ensures
            match r {
                Ok(h) => self.height_at(width as int) == Ok::<int, LayoutError>(h as int),
                Err(e) => self.height_at(width as int) == Err::<int, LayoutError>(e),
            },
    {
        match self {
            PanelWidget::Text(text) => text.get_height(width),
        }
    }
}

/// The error of the first widget from `from` on that has no layout at
/// `width`, if there is one.
pub open spec fn first_failure(children: Seq<PanelWidget>, width: int, from: int) -> Option<
    LayoutError,
>
    decreases children.len() - from,
{
    if from < 0 || from >= children.len() {
        None
    } else {
        match children[from].height_at(width) {
            Err(e) => Some(e),
            Ok(_) => first_failure(children, width, from + 1),
        }
    }
}

/// The rows that widget `i` takes at `width`.
pub open spec fn natural_height(children: Seq<PanelWidget>, width: int, i: int) -> int {
    children[i].height_at(width)->Ok_0
}

/// The rows that the first `n` widgets take at `width`, one below the
/// other.
pub open spec fn heights_before(children: Seq<PanelWidget>, width: int, n: int) -> int
    decreases n,
{
    if n <= 0 {
        0
    } else {
        heights_before(children, width, n - 1) + natural_height(children, width, n - 1)
    }
}

/// The rows that all the widgets take at `width`: the content height.
pub open spec fn content_height(children: Seq<PanelWidget>, width: int) -> int {
    heights_before(children, width, children.len() as int)
}

/// The row at which widget `n` starts inside `inner`: below the widgets
/// before it, and never below the bottom of `inner`.
pub open spec fn cursor_at(children: Seq<PanelWidget>, inner: Rect, n: int) -> int {
    min_int(inner.y + heights_before(children, span(inner), n), inner.spec_bottom())
}

/// The rectangle of widget `i` inside `inner`: the width of `inner`, from
/// the widget's row down as many rows as the widget takes, cut at the
/// bottom of `inner`.
pub open spec fn child_area(children: Seq<PanelWidget>, inner: Rect, i: int) -> Rect {
    Rect {
        x: inner.x,
        y: cursor_at(children, inner, i) as u16,
        width: span(inner) as u16,
        height: min_int(
            natural_height(children, span(inner), i),
            inner.spec_bottom() - cursor_at(children, inner, i),
        ) as u16,
    }
}

/// The rectangles of all the widgets inside `inner`, in their order.
pub open spec fn child_areas(children: Seq<PanelWidget>, inner: Rect) -> Seq<Rect> {
    Seq::new(children.len(), |i: int| child_area(children, inner, i))
}

/// The region of the scrollbar of a panel drawn into `area`: `area` without
/// its first row and two rows shorter.
pub open spec fn scrollbar_area(area: Rect) -> Rect {
    Rect {
        x: area.x,
        y: add_capped(area.y as int, 1) as u16,
        width: span(area) as u16,
        height: sub_or_zero(rise(area), 2) as u16,
    }
}

/// The rows of content that a viewport does not show.
pub open spec fn overflow_rows(content: int, viewport: int) -> int {
    sub_or_zero(content, viewport)
}

/// The rows of content that a viewport does not show: the size that the
/// scrollbar is drawn for. Content that fits gives 0.
pub fn scroll_extent(content_height: usize, viewport_height: usize) -> (r: usize)
    ensures
        r == overflow_rows(content_height as int, viewport_height as int),
        content_height <= viewport_height ==> r == 0,
{
    if content_height >= viewport_height {
        content_height - viewport_height
    } else {
        0
    }
}

/// The block of a panel is drawn into `area`: the grid is whole, the title
/// is shorter than the largest column count, and what is drawn of `area`
/// ends before the last column there is.
pub open spec fn block_lands(
    cells: Seq<Seq<char>>,
    screen: Rect,
    title: Seq<char>,
    area: Rect,
) -> bool {
    &&& whole(cells.len(), screen)
    &&& encode_utf8(title).len() < u16::MAX
    &&& clipped_right(screen, area) < u16::MAX
}

/// The cells after the block of a panel has been drawn into `area`, where
/// it is drawn; else, and without a block, the cells stay as they are.
pub open spec fn after_decoration(
    cells: Seq<Seq<char>>,
    screen: Rect,
    block: Option<Decoration>,
    area: Rect,
) -> Seq<Seq<char>> {
    match block {
        Some(d) => if block_lands(cells, screen, d.title@, area) {
            cells_after_block(cells, corners(screen), d.title@, d.borders.bits, corners(area))
        } else {
            cells
        },
        None => cells,
    }
}

/// The cells after a widget has been painted into `area`.
pub open spec fn after_child(
    cells: Seq<Seq<char>>,
    screen: Rect,
    child: PanelWidget,
    area: Rect,
) -> Seq<Seq<char>> {
    match child {
        PanelWidget::Text(text) => after_text(cells, screen, &text, area),
    }
}

/// The cells after the first `n` widgets have been painted, each into its
/// rectangle, one after the other.
pub open spec fn after_children(
    cells: Seq<Seq<char>>,
    screen: Rect,
    children: Seq<PanelWidget>,
    areas: Seq<Rect>,
    n: int,
) -> Seq<Seq<char>>
    decreases n,
{
    if n <= 0 {
        cells
    } else {
        after_child(
            after_children(cells, screen, children, areas, n - 1),
            screen,
            children[n - 1],
            areas[n - 1],
        )
    }
}

/// The scrollbar is drawn: the grid is whole and holds the region of the
/// scrollbar, and the region has a column and a row.
pub open spec fn bar_lands(cells: Seq<Seq<char>>, screen: Rect, region: Rect) -> bool {
    &&& whole(cells.len(), screen)
    &&& encloses(screen, region)
    &&& region.width > 0
    &&& region.height > 0
}

/// The glyph at the upper end of the scrollbar: an arrow that points up.
pub open spec fn upper_glyph() -> Seq<char> {
    "\u{2191}"@
}

/// The glyph at the lower end of the scrollbar: an arrow that points down.
pub open spec fn lower_glyph() -> Seq<char> {
    "\u{2193}"@
}

/// The cells after the scrollbar of a panel drawn into `area` has been
/// drawn for `length` hidden rows, where it is drawn: at the right edge of
/// its region, scrolled to the start, with an arrow at each end. Where it
/// is not drawn the cells stay as they are.
pub open spec fn after_scrollbar(
    cells: Seq<Seq<char>>,
    screen: Rect,
    area: Rect,
    length: usize,
) -> Seq<Seq<char>> {
    if bar_lands(cells, screen, scrollbar_area(area)) {
        cells_after_scrollbar(
            cells,
            corners(screen),
            corners(scrollbar_area(area)),
            length,
            0,
            upper_glyph(),
            lower_glyph(),
        )
    } else {
        cells
    }
}

/// The parts of a panel, set one by one.
#[derive(Debug)]
pub struct PanelBuilder {
    pub title: Option<String>,
    pub borders: Option<Borders>,
    pub padding: Option<Padding>,
    pub scrollbar: bool,
    pub children: Vec<PanelWidget>,
}

impl Default for PanelBuilder {
    /// No title, no borders or padding chosen, no scrollbar, no widget.
    fn default() -> (b: PanelBuilder)
        ensures
            b.title is None,
            b.borders is None,
            b.padding is None,
            !b.scrollbar,
            b.children@.len() == 0,
    {
        PanelBuilder {
            title: None,
            borders: None,
            padding: None,
            scrollbar: false,
            children: Vec::new(),
        }
    }
}

impl PanelBuilder {
    /// Sets the title; the panel then has a block.
    pub fn title(self, title: String) -> (b: PanelBuilder)
        ensures
            b.title == Some(title),
            b.borders == self.borders,
            b.padding == self.padding,
            b.scrollbar == self.scrollbar,
            b.children == self.children,
    {
        let mut b = self;
        b.title = Some(title);
        b
    }

    /// Sets the borders of the block.
    pub fn borders(self, borders: Borders) -> (b: PanelBuilder)
        ensures
            b.title == self.title,
            b.borders == Some(borders),
            b.padding == self.padding,
            b.scrollbar == self.scrollbar,
            b.children == self.children,
    {
        let mut b = self;
        b.borders = Some(borders);
        b
    }

    /// Sets the padding of the block.
    pub fn padding(self, padding: Padding) -> (b: PanelBuilder)
        ensures
            b.title == self.title,
            b.borders == self.borders,
            b.padding == Some(padding),
            b.scrollbar == self.scrollbar,
            b.children == self.children,
    {
        let mut b = self;
        b.padding = Some(padding);
        b
    }

    /// Adds a widget below the ones that are there.
    pub fn add_child(self, widget: PanelWidget) -> (b: PanelBuilder)
        ensures
            b.title == self.title,
            b.borders == self.borders,
            b.padding == self.padding,
            b.scrollbar == self.scrollbar,
            b.children@ == self.children@.push(widget),
    {
        let mut b = self;
        b.children.push(widget);
        b
    }

    /// The block that the builder describes: none without a title; with
    /// one, the chosen borders, or all four, and the chosen padding, or two
    /// columns and one row.
    pub open spec fn spec_block(&self) -> Option<Decoration> {
        match self.title {
            Some(title) => Some(
                Decoration {
                    title,
                    borders: match self.borders {
                        Some(borders) => borders,
                        None => Borders::spec_all(),
                    },
                    padding: match self.padding {
                        Some(padding) => padding,
                        None => Padding { left: 2, right: 2, top: 1, bottom: 1 },
                    },
                },
            ),
            None => None,
        }
    }

    /// The panel with the parts that were set.
    pub fn build(self) -> (p: Panel)
        ensures
            p.decoration() == self.spec_block(),
            p.shows_scrollbar() == self.scrollbar,
            p.widgets() == self.children@,
    {
        let borders = match self.borders {
            Some(borders) => borders,
            None => Borders::all(),
        };
        let padding = match self.padding {
            Some(padding) => padding,
            None => Padding::symmetric(2, 1),
        };
        let block = match self.title {
            Some(title) => Some(Decoration { title, borders, padding }),
            None => None,
        };
        Panel { block, scrollbar: self.scrollbar, children: self.children }
    }
}

/// A container of widgets, drawn one below the other inside an optional
/// block, with an optional scrollbar.
#[derive(Debug)]
pub struct Panel {
    block: Option<Decoration>,
    scrollbar: bool,
    children: Vec<PanelWidget>,
}

impl Panel {
    /// The block around the panel, if it has one.
    pub closed spec fn decoration(&self) -> Option<Decoration> {
        self.block
    }

    /// Whether the panel draws a scrollbar.
    pub closed spec fn shows_scrollbar(&self) -> bool {
        self.scrollbar
    }

    /// The widgets of the panel, top to bottom.
    pub closed spec fn widgets(&self) -> Seq<PanelWidget> {
        self.children@
    }

    /// The rectangle of the widgets of a panel drawn into `area`: the room
    /// inside the block, or all of `area` without one.
    pub open spec fn viewport(&self, area: Rect) -> Rect {
        match self.decoration() {
            Some(d) => d.spec_inner(area),
            None => area,
        }
    }

    /// The cells after the widgets of the panel have been painted into
    /// `inner`: all of them, or none where one of them has no layout.
    pub open spec fn after_stack(&self, cells: Seq<Seq<char>>, screen: Rect, inner: Rect) -> Seq<
        Seq<char>,
    > {
        if first_failure(self.widgets(), span(inner), 0) is None {
            after_children(
                cells,
                screen,
                self.widgets(),
                child_areas(self.widgets(), inner),
                self.widgets().len() as int,
            )
        } else {
            cells
        }
    }

    /// The hidden rows that the scrollbar of the panel is drawn for, with
    /// `inner` as the viewport.
    pub open spec fn hidden_rows(&self, inner: Rect) -> int {
        overflow_rows(
            min_int(content_height(self.widgets(), span(inner)), usize::MAX as int),
            rise(inner),
        )
    }

    /// The cells after the panel has been drawn into `area`: the block,
    /// then the widgets, then the scrollbar. Where a widget has no layout
    /// only the block is drawn.
    pub open spec fn after_panel(&self, cells: Seq<Seq<char>>, screen: Rect, area: Rect) -> Seq<
        Seq<char>,
    > {
        let framed = after_decoration(cells, screen, self.decoration(), area);
        let inner = self.viewport(area);
        let filled = self.after_stack(framed, screen, inner);
        if first_failure(self.widgets(), span(inner), 0) is None && self.shows_scrollbar() {
            after_scrollbar(filled, screen, area, self.hidden_rows(inner) as usize)
        } else {
            filled
        }
    }

    /// A builder with the given title, a scrollbar and no widget.
    pub fn new_builder(title: Option<String>) -> (b: PanelBuilder)
        ensures
            b.title == title,
            b.borders is None,
            b.padding is None,
            b.scrollbar,
            b.children@.len() == 0,
    {
        PanelBuilder { title, borders: None, padding: None, scrollbar: true, children: Vec::new() }
    }

    /// Adds a text below the widgets that are there.
    pub fn add_text(&mut self, text: Text)
        ensures
            final(self).widgets() == old(self).widgets().push(PanelWidget::Text(text)),
            final(self).decoration() == old(self).decoration(),
            final(self).shows_scrollbar() == old(self).shows_scrollbar(),
    {
        self.children.push(PanelWidget::Text(text));
    }

    /// The stacking pass: the rectangle of each widget inside `inner`, top
    /// to bottom, and the content height, held to the largest count there
    /// is. The error of the first widget without a layout where there is
    /// one.
    pub fn stack(&self, inner: Rect) -> (r: Result<(Vec<Rect>, usize), LayoutError>)
        ensures
            match r {
                Ok((areas, content)) => {
                    &&& first_failure(self.widgets(), span(inner), 0) is None
                    &&& areas@ == child_areas(self.widgets(), inner)
                    &&& content == min_int(
                        content_height(self.widgets(), span(inner)),
                        usize::MAX as int,
                    )
                },
                Err(e) => first_failure(self.widgets(), span(inner), 0) == Some(e),
            },
    {
        let left: u16 = inner.left();
        let bottom: u16 = inner.bottom();
        let width: u16 = inner.right() - left;
        let mut y: u16 = inner.top();
        let mut content: usize = 0;
        let mut areas: Vec<Rect> = Vec::new();
        let ghost children = self.widgets();
        let mut i: usize = 0;
        while i < self.children.len()
            invariant
                i <= self.children.len(),
                children == self.children@,
                left == inner.x,
                width == span(inner),
                bottom == inner.spec_bottom(),
                inner.y <= y <= bottom,
                0 <= heights_before(children, width as int, i as int),
                y == cursor_at(children, inner, i as int),
                content == min_int(heights_before(children, width as int, i as int), usize::MAX as int),
                first_failure(children, width as int, 0) == first_failure(
                    children,
                    width as int,
                    i as int,
                ),
                areas.len() == i,
                forall|k: int| 0 <= k < i ==> areas[k] == child_area(children, inner, k),
            decreases self.children.len() - i,
        {
            let natural: u16 = match self.children[i].get_height(width) {
                Ok(h) => h,
                Err(e) => {
                    return Err(e);
                },
            };
            let rows: u16 = if natural <= bottom - y {
                natural
            } else {
                bottom - y
            };
            areas.push(Rect { x: left, y, width, height: rows });
            y = y + rows;
            content = if content <= usize::MAX - natural as usize {
                content + natural as usize
            } else {
                usize::MAX
            };
            i += 1;
        }
        assert(areas@ =~= child_areas(children, inner));
        Ok((areas, content))
    }

    /// The decoration pass: draws the block of the panel into `area`, and
    /// gives the rectangle that is left for the widgets. The block is left
    /// out where the buffer has lost cells, where the title has 65535 bytes
    /// or more, and where what would be drawn reaches the last column there
    /// is.
    pub fn render_outer(&self, area: Rect, buf: &mut Buffer) -> (inner: Rect)
        ensures
            inner == self.viewport(area),
            buffer_area(*final(buf)) == buffer_area(*old(buf)),
            buffer_cells(*final(buf)).len() == buffer_cells(*old(buf)).len(),
            buffer_cells(*final(buf)) == after_decoration(
                buffer_cells(*old(buf)),
                screen_rect(*old(buf)),
                self.decoration(),
                area,
            ),
    {
        match &self.block {
            Some(d) => {
                let screen: Rect = buffer_rect(buf);
                let cells: u64 = buffer_len(buf) as u64;
                let title = d.title.as_str();
                let edge: u16 = if area.right() <= screen.right() {
                    area.right()
                } else {
                    screen.right()
                };
                if cells == screen.area() && title.as_bytes().len() < 0xffff && edge < u16::MAX {
                    draw_block(buf, title, d.borders, area);
                }
                d.inner(area)
            },
            None => area,
        }
    }

    /// Paints the widgets into `inner`, each into its rectangle of the
    /// stacking pass, and gives the content height. Where a widget has no
    /// layout nothing is painted.
    pub fn render_children(&self, inner: Rect, buf: &mut Buffer) -> (r: Result<usize, LayoutError>)
        ensures
            buffer_area(*final(buf)) == buffer_area(*old(buf)),
            buffer_cells(*final(buf)).len() == buffer_cells(*old(buf)).len(),
            buffer_cells(*final(buf)) == self.after_stack(
                buffer_cells(*old(buf)),
                screen_rect(*old(buf)),
                inner,
            ),
            match r {
                Ok(content) => {
                    &&& first_failure(self.widgets(), span(inner), 0) is None
                    &&& content == min_int(
                        content_height(self.widgets(), span(inner)),
                        usize::MAX as int,
                    )
                },
                Err(e) => first_failure(self.widgets(), span(inner), 0) == Some(e),
            },
    {
        let (areas, content) = match self.stack(inner) {
            Ok(stacked) => stacked,
            Err(e) => {
                return Err(e);
            },
        };
        let ghost screen = screen_rect(*buf);
        let mut i: usize = 0;
        while i < self.children.len()
            invariant
                i <= self.children.len(),
                areas.len() == self.children.len(),
                screen == screen_rect(*old(buf)),
                buffer_area(*buf) == buffer_area(*old(buf)),
                buffer_cells(*buf).len() == buffer_cells(*old(buf)).len(),
                buffer_cells(*buf) == after_children(
                    buffer_cells(*old(buf)),
                    screen,
                    self.children@,
                    areas@,
                    i as int,
                ),
            decreases self.children.len() - i,
        {
            match &self.children[i] {
                PanelWidget::Text(text) => {
                    // The stacking pass has laid out every child at this width.
                    let _painted = text.render_ref(areas[i], buf);
                },
            }
            i += 1;
        }
        Ok(content)
    }

    /// The scrollbar pass: where the panel shows a scrollbar, draws it in
    /// the region of `area` below its first row and above its last, for
    /// the rows of content that the viewport does not show, scrolled to the
    /// start. Nothing is drawn where that region has no row or no column,
    /// or does not lie inside the buffer.
    pub fn render_scrollbar(
        &self,
        area: Rect,
        buf: &mut Buffer,
        children_height: usize,
        display_height: usize,
    )
        ensures
            buffer_area(*final(buf)) == buffer_area(*old(buf)),
            buffer_cells(*final(buf)).len() == buffer_cells(*old(buf)).len(),
            buffer_cells(*final(buf)) == if self.shows_scrollbar() {
                after_scrollbar(
                    buffer_cells(*old(buf)),
                    screen_rect(*old(buf)),
                    area,
                    overflow_rows(children_height as int, display_height as int) as usize,
                )
            } else {
                buffer_cells(*old(buf))
            },
    {
        if self.scrollbar {
            let top: u16 = area.top();
            let rows: u16 = area.bottom() - top;
            let region = Rect {
                x: area.left(),
                y: if top < u16::MAX {
                    top + 1
                } else {
                    top
                },
                width: area.right() - area.left(),
                height: if rows >= 2 {
                    rows - 2
                } else {
                    0
                },
            };
            let length: usize = scroll_extent(children_height, display_height);
            let screen: Rect = buffer_rect(buf);
            let cells: u64 = buffer_len(buf) as u64;
            if cells == screen.area() && region.width > 0 && region.height > 0 && screen.left()
                <= region.left() && screen.top() <= region.top() && region.right()
                <= screen.right() && region.bottom() <= screen.bottom() {
                draw_scrollbar(buf, region, length, 0, "\u{2191}", "\u{2193}");
            }
        }
    }

    /// Draws the panel into `area` of `buf`: its block, its widgets inside
    /// the block, its scrollbar. The error of the first widget without a
    /// layout where there is one; the block is drawn then, and nothing
    /// else.
    pub fn render_ref(&self, area: Rect, buf: &mut Buffer) -> (r: Result<(), LayoutError>)
        ensures
            buffer_area(*final(buf)) == buffer_area(*old(buf)),
            buffer_cells(*final(buf)).len() == buffer_cells(*old(buf)).len(),
            buffer_cells(*final(buf)) == self.after_panel(
                buffer_cells(*old(buf)),
                screen_rect(*old(buf)),
                area,
            ),
            match first_failure(self.widgets(), span(self.viewport(area)), 0) {
                Some(e) => r == Err::<(), LayoutError>(e),
                None => r is Ok,
            },
    {
        let inner: Rect = self.render_outer(area, buf);
        match self.render_children(inner, buf) {
            Ok(content) => {
                let display: u16 = inner.bottom() - inner.top();
                self.render_scrollbar(area, buf, content, display as usize);
                Ok(())
            },
            Err(e) => Err(e),
        }
    }
}

/// Where no widget fails from `from` on, each of them has a height, and the
/// height is no negative number.
pub proof fn lemma_all_laid_out(children: Seq<PanelWidget>, width: int, from: int, i: int)
    requires
        0 <= from <= i < children.len(),
        first_failure(children, width, from) is None,
    ensures
        children[i].height_at(width) is Ok,
        0 <= natural_height(children, width, i),
    decreases i - from,
{
    if from < i {
        lemma_all_laid_out(children, width, from + 1, i);
    }
}

/// The rows that the first `n` widgets take are no negative number, and
/// more widgets never take fewer rows.
pub proof fn lemma_heights_grow(children: Seq<PanelWidget>, width: int, m: int, n: int)
    requires
        0 <= m <= n <= children.len(),
        first_failure(children, width, 0) is None,
    ensures
        0 <= heights_before(children, width, m) <= heights_before(children, width, n),
    decreases n,
{
    if m < n {
        lemma_heights_grow(children, width, m, n - 1);
        lemma_all_laid_out(children, width, 0, n - 1);
    } else if 0 < n {
        lemma_heights_grow(children, width, 0, n - 1);
        lemma_all_laid_out(children, width, 0, n - 1);
    }
}

/// The rectangle of each widget has the columns of the viewport, lies
/// between its top and its bottom, and has no more rows than the widget
/// takes: no widget is painted past the viewport.
pub proof fn lemma_child_area_inside(children: Seq<PanelWidget>, inner: Rect, i: int)
    requires
        0 <= i < children.len(),
        first_failure(children, span(inner), 0) is None,
    ensures
        child_area(children, inner, i).x == inner.x,
        child_area(children, inner, i).width == span(inner),
        inner.y <= child_area(children, inner, i).y,
        child_area(children, inner, i).y + child_area(children, inner, i).height
            <= inner.spec_bottom(),
        child_area(children, inner, i).height <= natural_height(children, span(inner), i),
        child_area(children, inner, i).height == natural_height(children, span(inner), i)
            || child_area(children, inner, i).y + child_area(children, inner, i).height
            == inner.spec_bottom(),
{
    lemma_heights_grow(children, span(inner), 0, i);
    lemma_all_laid_out(children, span(inner), 0, i);
}

/// The widgets are stacked in their order: each starts in the row below
/// the last row of the one before it.
pub proof fn lemma_child_areas_stacked(children: Seq<PanelWidget>, inner: Rect, i: int)
    requires
        0 <= i,
        i + 1 < children.len(),
        first_failure(children, span(inner), 0) is None,
    ensures
        child_area(children, inner, i + 1).y == child_area(children, inner, i).y + child_area(
            children,
            inner,
            i,
        ).height,
        child_area(children, inner, 0).y == inner.y,
{
    lemma_heights_grow(children, span(inner), 0, i);
    lemma_all_laid_out(children, span(inner), 0, i);
    lemma_child_area_inside(children, inner, i);
    assert(heights_before(children, span(inner), i + 1) == heights_before(
        children,
        span(inner),
        i,
    ) + natural_height(children, span(inner), i));
    assert(heights_before(children, span(inner), 0) == 0);
}

/// The content height is the sum of what the widgets take at the width of
/// the viewport, whatever its height is: rows that are not painted count.
pub proof fn lemma_content_height_ignores_viewport_height(
    children: Seq<PanelWidget>,
    a: Rect,
    b: Rect,
)
    requires
        span(a) == span(b),
    ensures
        content_height(children, span(a)) == content_height(children, span(b)),
{
}

/// The rows that are painted are the content height where it fits, and
/// else the rows of the viewport.
pub proof fn lemma_painted_rows(children: Seq<PanelWidget>, inner: Rect)
    requires
        first_failure(children, span(inner), 0) is None,
    ensures
        cursor_at(children, inner, children.len() as int) - inner.y == min_int(
            content_height(children, span(inner)),
            rise(inner),
        ),
{
    lemma_heights_grow(children, span(inner), 0, children.len() as int);
}

/// Nothing is hidden where the content fits into the viewport.
pub proof fn lemma_nothing_hidden_where_content_fits(content: int, viewport: int)
    requires
        0 <= content <= viewport,
    ensures
        overflow_rows(content, viewport) == 0,
{
}

} // verus!
