//! Line breaking over the bytes of a text: where a window of a given width
//! ends, where it is cut, and the lines that the cuts leave.

use vstd::prelude::*;
use vstd::utf8::*;

use crate::geometry::min_int;

verus! {

/// The byte that ends a line wherever it stands.
pub const NEWLINE: u8 = 0x0a;

/// The byte at which words part.
pub const SPACE: u8 = 0x20;

/// One display row: the bytes of the text from `start` up to `end`.
#[derive(Clone, Copy, Debug, PartialEq, Eq, Structural)]
pub struct Line {
    pub start: usize,
    pub end: usize,
}

impl Line {
    /// The number of bytes in the line.
    pub open spec fn spec_len(self) -> int {
        self.end - self.start
    }

    /// The line is a range of `bytes` that begins and ends between two
    /// characters.
    pub open spec fn within(self, bytes: Seq<u8>) -> bool {
        &&& self.start <= self.end <= bytes.len()
        &&& is_boundary(bytes, self.start as int)
        &&& is_boundary(bytes, self.end as int)
    }

    /// The bytes of the line.
    pub open spec fn of(self, bytes: Seq<u8>) -> Seq<u8> {
        bytes.subrange(self.start as int, self.end as int)
    }

    /// The number of bytes in the line; 0 where the range is reversed.
    pub fn len(&self) -> (n: usize)
        ensures
            self.start <= self.end ==> n == self.spec_len(),
            self.start > self.end ==> n == 0,
    {
        if self.start <= self.end {
            self.end - self.start
        } else {
            0
        }
    }
}

/// Index `i` does not point into the middle of a character: it is the start
/// or the end of `bytes`, or the byte there is no continuation byte.
pub open spec fn is_boundary(bytes: Seq<u8>, i: int) -> bool {
    i == 0 || i == bytes.len() || (0 < i < bytes.len() && !is_continuation_byte(bytes[i]))
}

/// The last boundary in `pos < i <= limit`, or `pos` where there is none.
pub open spec fn snap_back(bytes: Seq<u8>, pos: int, limit: int) -> int
    decreases limit - pos,
{
    if limit <= pos {
        pos
    } else if is_boundary(bytes, limit) {
        limit
    } else {
        snap_back(bytes, pos, limit - 1)
    }
}

/// The end of the window that starts at `pos`: at most `width` bytes on,
/// never past the end of the text and never inside a character.
pub open spec fn window_end(bytes: Seq<u8>, pos: int, width: int) -> int {
    snap_back(bytes, pos, min_int(pos + width, bytes.len() as int))
}

/// The first index in `from <= i < to` that holds `b`, or `to` where none does.
pub open spec fn first_at(bytes: Seq<u8>, b: u8, from: int, to: int) -> int
    decreases to - from,
{
    if from >= to {
        to
    } else if bytes[from] == b {
        from
    } else {
        first_at(bytes, b, from + 1, to)
    }
}

/// The last index in `from <= i < to` that holds `b`, or `to` where none does.
pub open spec fn last_at(bytes: Seq<u8>, b: u8, from: int, to: int) -> int
    decreases to - from,
{
    if from >= to {
        to
    } else {
        let later = last_at(bytes, b, from + 1, to);
        if later < to {
            later
        } else if bytes[from] == b {
            from
        } else {
            to
        }
    }
}

/// The first index at or after `pos` that holds no space, or the end of the
/// text.
pub open spec fn skip_spaces(bytes: Seq<u8>, pos: int) -> int
    decreases bytes.len() - pos,
{
    if 0 <= pos < bytes.len() && bytes[pos] == SPACE {
        skip_spaces(bytes, pos + 1)
    } else {
        pos
    }
}

/// What `first_at` returns lies in the range, holds `b` unless it is `to`,
/// and nothing before it holds `b`.
pub proof fn lemma_first_at(bytes: Seq<u8>, b: u8, from: int, to: int)
    requires
        from <= to,
    ensures
        from <= first_at(bytes, b, from, to) <= to,
        first_at(bytes, b, from, to) < to ==> bytes[first_at(bytes, b, from, to)] == b,
        forall|j: int| from <= j < first_at(bytes, b, from, to) ==> bytes[j] != b,
    decreases to - from,
{
    if from < to && bytes[from] != b {
        lemma_first_at(bytes, b, from + 1, to);
    }
}

/// What `last_at` returns lies in the range, holds `b` unless it is `to`,
/// and nothing after it in the range holds `b`; where it is `to`, nothing in
/// the range holds `b`.
pub proof fn lemma_last_at(bytes: Seq<u8>, b: u8, from: int, to: int)
    requires
        from <= to,
    ensures
        from <= last_at(bytes, b, from, to) <= to,
        last_at(bytes, b, from, to) < to ==> bytes[last_at(bytes, b, from, to)] == b,
        forall|j: int| last_at(bytes, b, from, to) < j < to ==> bytes[j] != b,
        last_at(bytes, b, from, to) == to ==> forall|j: int| from <= j < to ==> bytes[j] != b,
    decreases to - from,
{
    if from < to {
        lemma_last_at(bytes, b, from + 1, to);
    }
}

/// An index that holds `b` and has no `b` after it in the range is what
/// `last_at` returns.
pub proof fn lemma_last_at_is(bytes: Seq<u8>, b: u8, from: int, to: int, k: int)
    requires
        from <= k < to,
        bytes[k] == b,
        forall|j: int| k < j < to ==> bytes[j] != b,
    ensures
        last_at(bytes, b, from, to) == k,
    decreases k - from,
{
    if from < k {
        lemma_last_at_is(bytes, b, from + 1, to, k);
    } else {
        lemma_last_at(bytes, b, from + 1, to);
    }
}

/// A range without `b` gives `to`.
pub proof fn lemma_last_at_none(bytes: Seq<u8>, b: u8, from: int, to: int)
    requires
        from <= to,
        forall|j: int| from <= j < to ==> bytes[j] != b,
    ensures
        last_at(bytes, b, from, to) == to,
    decreases to - from,
{
    if from < to {
        lemma_last_at_none(bytes, b, from + 1, to);
    }
}

/// What `snap_back` returns lies in `pos ..= limit`, is a boundary unless it
/// is `pos`, and no boundary lies after it up to `limit`.
pub proof fn lemma_snap_back(bytes: Seq<u8>, pos: int, limit: int)
    requires
        pos <= limit,
    ensures
        pos <= snap_back(bytes, pos, limit) <= limit,
        snap_back(bytes, pos, limit) > pos ==> is_boundary(bytes, snap_back(bytes, pos, limit)),
        forall|j: int| snap_back(bytes, pos, limit) < j <= limit ==> !is_boundary(bytes, j),
    decreases limit - pos,
{
    if limit > pos && !is_boundary(bytes, limit) {
        lemma_snap_back(bytes, pos, limit - 1);
    }
}

/// What `window_end` returns lies between `pos` and the end of the text, at
/// most `width` bytes after `pos`, and is a boundary where `pos` is one.
pub proof fn lemma_window_end(bytes: Seq<u8>, pos: int, width: int)
    requires
        0 <= pos <= bytes.len(),
        0 <= width,
    ensures
        pos <= window_end(bytes, pos, width) <= bytes.len(),
        window_end(bytes, pos, width) <= pos + width,
        is_boundary(bytes, pos) ==> is_boundary(bytes, window_end(bytes, pos, width)),
{
    lemma_snap_back(bytes, pos, min_int(pos + width, bytes.len() as int));
}

/// What `skip_spaces` returns lies between `pos` and the end of the text,
/// only spaces lie before it, and it holds no space.
pub proof fn lemma_skip_spaces(bytes: Seq<u8>, pos: int)
    requires
        0 <= pos <= bytes.len(),
    ensures
        pos <= skip_spaces(bytes, pos) <= bytes.len(),
        forall|j: int| pos <= j < skip_spaces(bytes, pos) ==> bytes[j] == SPACE,
        skip_spaces(bytes, pos) < bytes.len() ==> bytes[skip_spaces(bytes, pos)] != SPACE,
    decreases bytes.len() - pos,
{
    if pos < bytes.len() && bytes[pos] == SPACE {
        lemma_skip_spaces(bytes, pos + 1);
    }
}

/// In well-formed text the index after a one-byte character is a boundary.
pub proof fn lemma_boundary_after_ascii(bytes: Seq<u8>, k: int)
    requires
        valid_utf8(bytes),
        0 <= k < bytes.len(),
        bytes[k] < 0x80,
    ensures
        is_boundary(bytes, k + 1),
{
    if k + 1 < bytes.len() {
        is_char_boundary_iff_not_is_continuation_byte(bytes, k);
        valid_utf8_split(bytes, k);
        let tail = bytes.subrange(k, bytes.len() as int);
        assert(tail[0] == bytes[k]);
        assert(is_leading_byte_width_1(tail[0]));
        assert(length_of_first_scalar(tail) == 1);
        reveal_with_fuel(is_char_boundary, 2);
        assert(is_char_boundary(tail, 1));
        is_char_boundary_iff_not_is_continuation_byte(tail, 1);
        assert(tail[1] == bytes[k + 1]);
    }
}

/// Whether index `i` of `bytes` is a boundary.
pub(crate) fn at_boundary(bytes: &[u8], i: usize) -> (r: bool)
    ensures
        r == is_boundary(bytes@, i as int),
{
    if i == 0 || i == bytes.len() {
        true
    } else if i < bytes.len() {
        !(bytes[i] >= 0x80 && bytes[i] <= 0xbf)
    } else {
        false
    }
}

/// The end of the window of `width` bytes that starts at `pos`.
pub(crate) fn window_end_at(bytes: &[u8], pos: usize, width: u16) -> (end: usize)
    requires
        pos <= bytes.len(),
    ensures
        end == window_end(bytes@, pos as int, width as int),
        pos <= end <= bytes.len(),
        end <= pos + width,
{
    let room: usize = bytes.len() - pos;
    let limit: usize = if (width as usize) < room {
        pos + width as usize
    } else {
        bytes.len()
    };
    let mut end: usize = limit;
    while end > pos && !at_boundary(bytes, end)
        invariant
            pos <= end <= limit,
            snap_back(bytes@, pos as int, end as int) == snap_back(
                bytes@,
                pos as int,
                limit as int,
            ),
        decreases end,
    {
        end -= 1;
    }
    proof {
        lemma_window_end(bytes@, pos as int, width as int);
    }
    end
}

/// The first index in `from <= i < to` that holds `b`, or `to`.
pub(crate) fn find_first(bytes: &[u8], b: u8, from: usize, to: usize) -> (r: usize)
    requires
        from <= to <= bytes.len(),
    ensures
        r == first_at(bytes@, b, from as int, to as int),
        from <= r <= to,
{
    let mut i: usize = from;
    while i < to && bytes[i] != b
        invariant
            from <= i <= to <= bytes.len(),
            first_at(bytes@, b, i as int, to as int) == first_at(bytes@, b, from as int, to as int),
        decreases to - i,
    {
        i += 1;
    }
    i
}

/// The last index in `from <= i < to` that holds `b`, or `to`.
pub(crate) fn find_last(bytes: &[u8], b: u8, from: usize, to: usize) -> (r: usize)
    requires
        from <= to <= bytes.len(),
    ensures
        r == last_at(bytes@, b, from as int, to as int),
        from <= r <= to,
{
    let mut i: usize = to;
    while i > from
        invariant
            from <= i <= to <= bytes.len(),
            forall|j: int| i <= j < to ==> bytes@[j] != b,
        decreases i,
    {
        i -= 1;
        if bytes[i] == b {
            proof {
                lemma_last_at_is(bytes@, b, from as int, to as int, i as int);
            }
            return i;
        }
    }
    proof {
        lemma_last_at_none(bytes@, b, from as int, to as int);
    }
    to
}

/// The first index at or after `pos` that holds no space.
pub(crate) fn skip_spaces_at(bytes: &[u8], pos: usize) -> (r: usize)
    requires
        pos <= bytes.len(),
    ensures
        r == skip_spaces(bytes@, pos as int),
        pos <= r <= bytes.len(),
{
    let mut i: usize = pos;
    while i < bytes.len() && bytes[i] == SPACE
        invariant
            pos <= i <= bytes.len(),
            skip_spaces(bytes@, i as int) == skip_spaces(bytes@, pos as int),
        decreases bytes.len() - i,
    {
        i += 1;
    }
    i
}

/// The single line of a truncated text: its first window.
pub open spec fn truncate_lines(bytes: Seq<u8>, width: int) -> Seq<Line> {
    seq![Line { start: 0, end: window_end(bytes, 0, width) as usize }]
}

/// Where the line that starts at `pos` ends under fixed-width slicing, and
/// where the next one starts: at the first newline of the window and after
/// it, or at the window's end.
pub open spec fn exact_cut(bytes: Seq<u8>, pos: int, width: int) -> (int, int) {
    let end = window_end(bytes, pos, width);
    let newline = first_at(bytes, NEWLINE, pos, end);
    if newline < end {
        (newline, newline + 1)
    } else {
        (end, end)
    }
}

/// Where a line without a newline breaks under word wrap: at the window's
/// end where the text ends there or a space follows, else at the window's
/// last space, else at the window's end.
pub open spec fn words_break(bytes: Seq<u8>, pos: int, end: int) -> int {
    if end == bytes.len() || bytes[end] == SPACE {
        end
    } else {
        last_at(bytes, SPACE, pos, end)
    }
}

/// Where the line that starts at `pos` ends under word wrap, and where the
/// next one starts: at the first newline of the window and after it, or at
/// the break and after the spaces that follow it.
pub open spec fn words_cut(bytes: Seq<u8>, pos: int, width: int) -> (int, int) {
    let end = window_end(bytes, pos, width);
    let newline = first_at(bytes, NEWLINE, pos, end);
    if newline < end {
        (newline, newline + 1)
    } else {
        let to = words_break(bytes, pos, end);
        (to, skip_spaces(bytes, to))
    }
}

/// A window can be taken at `pos`: the cursor is in the text and the window
/// holds at least one character. There is none at the end of the text, at
/// width 0, and before a character that has more bytes than the width.
pub open spec fn has_window(bytes: Seq<u8>, pos: int, width: int) -> bool {
    0 <= pos <= bytes.len() && 0 <= width && window_end(bytes, pos, width) > pos
}

/// The lines of the text from `pos` on under fixed-width slicing. They end
/// where no window can be taken: at the end of the text, or before the first
/// character that has more bytes than the width, which is then left out
/// with all that follows it.
pub open spec fn exact_lines(bytes: Seq<u8>, pos: int, width: int) -> Seq<Line>
    decreases bytes.len() - pos,
    via exact_lines_decreases
{
    if has_window(bytes, pos, width) {
        let cut = exact_cut(bytes, pos, width);
        seq![Line { start: pos as usize, end: cut.0 as usize }] + exact_lines(bytes, cut.1, width)
    } else {
        Seq::empty()
    }
}

#[via_fn]
proof fn exact_lines_decreases(bytes: Seq<u8>, pos: int, width: int) {
    if has_window(bytes, pos, width) {
        lemma_exact_cut(bytes, pos, width);
    }
}

/// The lines of the text from `pos` on under word wrap. They end where no
/// window can be taken: at the end of the text, or before the first
/// character that has more bytes than the width, which is then left out
/// with all that follows it.
pub open spec fn words_lines(bytes: Seq<u8>, pos: int, width: int) -> Seq<Line>
    decreases bytes.len() - pos,
    via words_lines_decreases
{
    if has_window(bytes, pos, width) {
        let cut = words_cut(bytes, pos, width);
        seq![Line { start: pos as usize, end: cut.0 as usize }] + words_lines(bytes, cut.1, width)
    } else {
        Seq::empty()
    }
}

#[via_fn]
proof fn words_lines_decreases(bytes: Seq<u8>, pos: int, width: int) {
    if has_window(bytes, pos, width) {
        lemma_words_cut(bytes, pos, width);
    }
}

/// A cut under fixed-width slicing ends its line inside the window and
/// moves the cursor on.
pub proof fn lemma_exact_cut(bytes: Seq<u8>, pos: int, width: int)
    requires
        has_window(bytes, pos, width),
    ensures
        pos <= exact_cut(bytes, pos, width).0 <= window_end(bytes, pos, width),
        exact_cut(bytes, pos, width).0 <= exact_cut(bytes, pos, width).1 <= bytes.len(),
        pos < exact_cut(bytes, pos, width).1,
{
    lemma_window_end(bytes, pos, width);
    lemma_first_at(bytes, NEWLINE, pos, window_end(bytes, pos, width));
}

/// A cut under word wrap ends its line inside the window and moves the
/// cursor on.
pub proof fn lemma_words_cut(bytes: Seq<u8>, pos: int, width: int)
    requires
        has_window(bytes, pos, width),
    ensures
        pos <= words_cut(bytes, pos, width).0 <= window_end(bytes, pos, width),
        words_cut(bytes, pos, width).0 <= words_cut(bytes, pos, width).1 <= bytes.len(),
        pos < words_cut(bytes, pos, width).1,
{
    let end = window_end(bytes, pos, width);
    lemma_window_end(bytes, pos, width);
    lemma_first_at(bytes, NEWLINE, pos, end);
    lemma_last_at(bytes, SPACE, pos, end);
    let to = words_break(bytes, pos, end);
    lemma_skip_spaces(bytes, to);
    if to == pos {
        assert(bytes[pos] == SPACE);
        lemma_skip_spaces(bytes, pos + 1);
    }
}

/// An index that holds `b` with no `b` before it in the range is what
/// `first_at` returns.
pub proof fn lemma_first_at_is(bytes: Seq<u8>, b: u8, from: int, to: int, k: int)
    requires
        from <= k < to,
        bytes[k] == b,
        forall|j: int| from <= j < k ==> bytes[j] != b,
    ensures
        first_at(bytes, b, from, to) == k,
    decreases k - from,
{
    if from < k {
        lemma_first_at_is(bytes, b, from + 1, to, k);
    }
}

/// A range without `b` gives `to`.
pub proof fn lemma_first_at_none(bytes: Seq<u8>, b: u8, from: int, to: int)
    requires
        from <= to,
        forall|j: int| from <= j < to ==> bytes[j] != b,
    ensures
        first_at(bytes, b, from, to) == to,
    decreases to - from,
{
    if from < to {
        lemma_first_at_none(bytes, b, from + 1, to);
    }
}

/// Lines laid out from `pos` on at `width`: each is a range of the text
/// between two characters, starts at or after `pos`, holds at most `width`
/// bytes and no newline, and each ends before the next one starts.
pub open spec fn well_laid(lines: Seq<Line>, bytes: Seq<u8>, pos: int, width: int) -> bool {
    &&& forall|i: int|
        0 <= i < lines.len() ==> {
            &&& (#[trigger] lines[i]).within(bytes)
            &&& pos <= lines[i].start
            &&& lines[i].spec_len() <= width
            &&& holds_no_newline(bytes, lines[i])
        }
    &&& forall|i: int, j: int|
        0 <= i < j < lines.len() ==> (#[trigger] lines[i]).end <= (#[trigger] lines[j]).start
}

/// No byte of the line is a newline.
pub open spec fn holds_no_newline(bytes: Seq<u8>, line: Line) -> bool {
    forall|j: int| line.start <= j < line.end ==> bytes[j] != NEWLINE
}

/// Fixed-width slicing of well-formed text never cuts a character, never
/// exceeds the width, never emits a newline and keeps the lines in the
/// order of the text.
pub proof fn lemma_exact_lines_well_laid(bytes: Seq<u8>, pos: int, width: int)
    requires
        valid_utf8(bytes),
        bytes.len() <= usize::MAX,
        0 <= pos <= bytes.len(),
        is_boundary(bytes, pos),
        0 <= width,
    ensures
        well_laid(exact_lines(bytes, pos, width), bytes, pos, width),
    decreases bytes.len() - pos,
{
    if has_window(bytes, pos, width) {
        let end = window_end(bytes, pos, width);
        let cut = exact_cut(bytes, pos, width);
        lemma_window_end(bytes, pos, width);
        lemma_first_at(bytes, NEWLINE, pos, end);
        if cut.0 < end {
            lemma_boundary_after_ascii(bytes, cut.0);
        }
        lemma_exact_lines_well_laid(bytes, cut.1, width);
        let first = Line { start: pos as usize, end: cut.0 as usize };
        let rest = exact_lines(bytes, cut.1, width);
        lemma_well_laid_cons(first, rest, bytes, pos, cut.1, width);
    }
}

/// Word wrap of well-formed text never cuts a character, never exceeds the
/// width, never emits a newline and keeps the lines in the order of the
/// text.
pub proof fn lemma_words_lines_well_laid(bytes: Seq<u8>, pos: int, width: int)
    requires
        valid_utf8(bytes),
        bytes.len() <= usize::MAX,
        0 <= pos <= bytes.len(),
        is_boundary(bytes, pos),
        0 <= width,
    ensures
        well_laid(words_lines(bytes, pos, width), bytes, pos, width),
    decreases bytes.len() - pos,
{
    if has_window(bytes, pos, width) {
        let end = window_end(bytes, pos, width);
        let cut = words_cut(bytes, pos, width);
        lemma_window_end(bytes, pos, width);
        lemma_words_cut(bytes, pos, width);
        lemma_first_at(bytes, NEWLINE, pos, end);
        lemma_last_at(bytes, SPACE, pos, end);
        if first_at(bytes, NEWLINE, pos, end) < end {
            lemma_boundary_after_ascii(bytes, cut.0);
        } else {
            lemma_skip_spaces(bytes, cut.0);
            if cut.1 > cut.0 {
                lemma_boundary_after_ascii(bytes, cut.1 - 1);
            }
        }
        lemma_words_lines_well_laid(bytes, cut.1, width);
        let first = Line { start: pos as usize, end: cut.0 as usize };
        let rest = words_lines(bytes, cut.1, width);
        lemma_well_laid_cons(first, rest, bytes, pos, cut.1, width);
    }
}

/// A well laid line before well laid lines that start after its end is
/// well laid.
proof fn lemma_well_laid_cons(
    first: Line,
    rest: Seq<Line>,
    bytes: Seq<u8>,
    pos: int,
    next: int,
    width: int,
)
    requires
        first.within(bytes),
        first.start == pos,
        first.spec_len() <= width,
        holds_no_newline(bytes, first),
        first.end <= next,
        pos <= next,
        well_laid(rest, bytes, next, width),
    ensures
        well_laid(seq![first] + rest, bytes, pos, width),
{
    let all = seq![first] + rest;
    assert forall|i: int| 0 <= i < all.len() implies {
        &&& (#[trigger] all[i]).within(bytes)
        &&& pos <= all[i].start
        &&& all[i].spec_len() <= width
        &&& holds_no_newline(bytes, all[i])
    } by {
        if i > 0 {
            assert(all[i] == rest[i - 1]);
        }
    }
    assert forall|i: int, j: int| 0 <= i < j < all.len() implies (#[trigger] all[i]).end <= (
    #[trigger] all[j]).start by {
        assert(all[j] == rest[j - 1]);
        if i > 0 {
            assert(all[i] == rest[i - 1]);
        }
    }
}

/// The single line of a truncated text starts the text, never cuts a
/// character and never exceeds the width; in well-formed text it takes all
/// of the text or stops less than four bytes short of the width.
pub proof fn lemma_truncate_lines(bytes: Seq<u8>, width: int)
    requires
        bytes.len() <= usize::MAX,
        0 <= width,
    ensures
        truncate_lines(bytes, width).len() == 1,
        truncate_lines(bytes, width)[0].start == 0,
        truncate_lines(bytes, width)[0].within(bytes),
        truncate_lines(bytes, width)[0].spec_len() <= width,
        valid_utf8(bytes) ==> truncate_lines(bytes, width)[0].end == bytes.len() || width
            - truncate_lines(bytes, width)[0].end < 4,
{
    lemma_window_end(bytes, 0, width);
    let limit = min_int(width, bytes.len() as int);
    lemma_snap_back(bytes, 0, limit);
    let end = window_end(bytes, 0, width);
    if end != bytes.len() && end + 4 <= width && valid_utf8(bytes) {
        lemma_boundary_within_four(bytes, end);
    }
}

/// In well-formed text one of any four indices in a row is a boundary.
pub proof fn lemma_boundary_within_four(bytes: Seq<u8>, k: int)
    requires
        valid_utf8(bytes),
        0 <= k,
        k + 4 <= bytes.len(),
    ensures
        is_boundary(bytes, k + 1) || is_boundary(bytes, k + 2) || is_boundary(bytes, k + 3)
            || is_boundary(bytes, k + 4),
    decreases bytes.len(),
{
    let n = length_of_first_scalar(bytes);
    if k == 0 {
        reveal_with_fuel(is_char_boundary, 2);
        assert(is_char_boundary(bytes, n));
        if n < bytes.len() {
            is_char_boundary_iff_not_is_continuation_byte(bytes, n);
        }
    } else if k < n {
        reveal_with_fuel(is_char_boundary, 2);
        assert(is_char_boundary(bytes, n));
        if n < bytes.len() {
            is_char_boundary_iff_not_is_continuation_byte(bytes, n);
        }
    } else {
        let tail = pop_first_scalar(bytes);
        lemma_boundary_within_four(tail, k - n);
        lemma_boundary_of_tail(bytes, n, k - n + 1);
        lemma_boundary_of_tail(bytes, n, k - n + 2);
        lemma_boundary_of_tail(bytes, n, k - n + 3);
        lemma_boundary_of_tail(bytes, n, k - n + 4);
    }
}

/// A boundary of what follows the first `n` bytes is a boundary of the whole.
proof fn lemma_boundary_of_tail(bytes: Seq<u8>, n: int, i: int)
    requires
        0 <= n <= bytes.len(),
        0 < i,
    ensures
        is_boundary(bytes.subrange(n, bytes.len() as int), i) ==> is_boundary(bytes, n + i),
{
    let tail = bytes.subrange(n, bytes.len() as int);
    if 0 < i < tail.len() {
        assert(tail[i] == bytes[n + i]);
    }
}

/// Under fixed-width slicing a newline inside the window ends the line
/// where it stands, and the next line starts right after it: the newline
/// itself belongs to no line.
pub proof fn lemma_exact_cut_at_newline(bytes: Seq<u8>, pos: int, width: int, newline: int)
    requires
        has_window(bytes, pos, width),
        pos <= newline < window_end(bytes, pos, width),
        bytes[newline] == NEWLINE,
        forall|j: int| pos <= j < newline ==> bytes[j] != NEWLINE,
    ensures
        exact_cut(bytes, pos, width) == (newline, newline + 1),
{
    lemma_first_at_is(bytes, NEWLINE, pos, window_end(bytes, pos, width), newline);
}

/// Under word wrap a run of `width` bytes without a space or a newline,
/// with more of the word after it, is broken after exactly `width` bytes,
/// and the next line starts there.
pub proof fn lemma_words_hard_break(bytes: Seq<u8>, pos: int, width: int)
    requires
        0 <= pos,
        0 < width,
        pos + width < bytes.len(),
        is_boundary(bytes, pos + width),
        bytes[pos + width] != SPACE,
        forall|j: int| pos <= j < pos + width ==> bytes[j] != SPACE && bytes[j] != NEWLINE,
    ensures
        has_window(bytes, pos, width),
        words_cut(bytes, pos, width) == (pos + width, pos + width),
{
    let end = pos + width;
    assert(window_end(bytes, pos, width) == end);
    lemma_first_at_none(bytes, NEWLINE, pos, end);
    lemma_last_at_none(bytes, SPACE, pos, end);
}

/// A window whose full width ends between two characters, or at the end of
/// the text, has its full width: it ends `width` bytes after `pos`, or at the
/// end of the text where that comes first.
pub proof fn lemma_window_end_full(bytes: Seq<u8>, pos: int, width: int)
    requires
        0 <= pos <= bytes.len(),
        0 <= width,
        is_boundary(bytes, min_int(pos + width, bytes.len() as int)),
    ensures
        window_end(bytes, pos, width) == min_int(pos + width, bytes.len() as int),
{
}

/// In a text of one-byte characters every window has its full width.
pub proof fn lemma_window_end_of_ascii(bytes: Seq<u8>, pos: int, width: int)
    requires
        0 <= pos <= bytes.len(),
        0 <= width,
        forall|j: int| 0 <= j < bytes.len() ==> bytes[j] < 0x80,
    ensures
        window_end(bytes, pos, width) == min_int(pos + width, bytes.len() as int),
{
    lemma_window_end_full(bytes, pos, width);
}

/// Where no window can be taken before the end of the text, the character
/// at the cursor does not fit: no boundary lies within the width after it.
pub proof fn lemma_no_window(bytes: Seq<u8>, pos: int, width: int)
    requires
        0 <= pos < bytes.len(),
        0 <= width,
        !has_window(bytes, pos, width),
    ensures
        pos + width < bytes.len(),
        forall|j: int| pos < j <= pos + width ==> !is_boundary(bytes, j),
{
    lemma_snap_back(bytes, pos, min_int(pos + width, bytes.len() as int));
}

/// At a width of four or more a window can be taken anywhere before the end
/// of well-formed text, since no character has more than four bytes: such a
/// text is laid out in full.
pub proof fn lemma_window_at_width_four(bytes: Seq<u8>, pos: int, width: int)
    requires
        valid_utf8(bytes),
        0 <= pos < bytes.len(),
        4 <= width,
    ensures
        has_window(bytes, pos, width),
{
    let limit = min_int(pos + width, bytes.len() as int);
    lemma_snap_back(bytes, pos, limit);
    if pos + 4 <= bytes.len() {
        lemma_boundary_within_four(bytes, pos);
    }
}

} // verus!
