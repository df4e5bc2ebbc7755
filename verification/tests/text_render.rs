use ratatui::buffer::Buffer;
use strotui::{LayoutError, Line, Rect, Stroke, Text, TextWrap};

fn screen(width: u16, height: u16) -> Buffer {
    Buffer::empty(ratatui::layout::Rect::new(0, 0, width, height))
}

fn rows(buf: &Buffer) -> Vec<String> {
    buf.content
        .chunks(buf.area.width as usize)
        .map(|row| row.iter().map(|cell| cell.symbol()).collect::<String>())
        .collect()
}

fn padded(lines: &[&str], width: usize) -> Vec<String> {
    lines.iter().map(|line| format!("{:<1$}", line, width)).collect()
}

#[test]
fn test_text() {
    let text = Text::from("Hello, world!");
    let rect = Rect::new(0, 0, 13, 1);
    let mut buffer = screen(13, 1);

    text.render_ref(rect, &mut buffer).unwrap();

    assert_eq!(rows(&buffer), vec!["Hello, world!"]);
}

#[test]
fn test_words_with_truncate() {
    let text = Text::new_with_wrap(
        "Let's not wrap this text even though it's plenty long enough to do so.".to_string(),
        TextWrap::Truncate,
    );
    let rect = Rect::new(0, 0, 40, 3);
    let mut buffer = screen(40, 3);

    text.render_ref(rect, &mut buffer).unwrap();

    assert_eq!(
        rows(&buffer),
        padded(&["Let's not wrap this text even though it'", "", ""], 40)
    );
}

#[test]
fn test_words_with_truncate_and_ellipsis() {
    let text = Text::new_with_wrap(
        "Let's not wrap this text even though it's plenty long enough to do so.".to_string(),
        TextWrap::TruncateWithEllipsis,
    );
    let rect = Rect::new(0, 0, 40, 3);
    let mut buffer = screen(40, 3);

    text.render_ref(rect, &mut buffer).unwrap();

    assert_eq!(
        rows(&buffer),
        padded(&["Let's not wrap this text even though ...", "", ""], 40)
    );
}

#[test]
fn test_with_wrap() {
    let text = Text::new_with_wrap(
        "Let's wrap this text that is long enough to do so.".to_string(),
        TextWrap::Wrapped,
    );
    let rect = Rect::new(0, 0, 40, 3);
    let mut buffer = screen(40, 3);

    text.render_ref(rect, &mut buffer).unwrap();

    assert_eq!(
        rows(&buffer),
        padded(
            &["Let's wrap this text that is long enough", " to do so.", ""],
            40
        )
    );
}

#[test]
fn test_with_wrap_and_newlines() {
    let text = Text::new_with_wrap(
        "Let's wrap this text that is long enough to do so.\nAnd it has a newline.".to_string(),
        TextWrap::Wrapped,
    );
    let rect = Rect::new(0, 0, 40, 3);
    let mut buffer = screen(40, 3);

    text.render_ref(rect, &mut buffer).unwrap();

    assert_eq!(
        rows(&buffer),
        padded(
            &[
                "Let's wrap this text that is long enough",
                " to do so.",
                "And it has a newline."
            ],
            40
        )
    );
}

#[test]
fn test_long_text_word_wrap() {
    let text = Text::from("String that is longer than the 40 characters of the rectangle.");
    let rect = Rect::new(0, 0, 40, 3);
    let mut buffer = screen(40, 3);

    text.render_ref(rect, &mut buffer).unwrap();

    assert_eq!(
        rows(&buffer),
        padded(
            &[
                "String that is longer than the 40",
                "characters of the rectangle.",
                ""
            ],
            40
        )
    );
}

#[test]
fn test_long_words_text_word_wrap() {
    let text = Text::from("aaaaaaaaaaaaaaaaaaaaaaaaaaaaaaaaaaaaaaaaaaaaaa bbbbbbbbbbbbbbbbbbbbbbbbbbbbbbbbbbbbbbbbb");
    let rect = Rect::new(0, 0, 40, 3);
    let mut buffer = screen(40, 3);

    text.render_ref(rect, &mut buffer).unwrap();

    assert_eq!(
        rows(&buffer),
        padded(
            &[
                "aaaaaaaaaaaaaaaaaaaaaaaaaaaaaaaaaaaaaaaa",
                "aaaaaa",
                "bbbbbbbbbbbbbbbbbbbbbbbbbbbbbbbbbbbbbbbb"
            ],
            40
        )
    );
}

#[test]
fn test_with_word_wrap_and_newlines() {
    let text =
        Text::from("Let's wrap this text that is long enough to do so.\nAnd it has a newline.");
    let rect = Rect::new(0, 0, 40, 3);
    let mut buffer = screen(40, 3);

    text.render_ref(rect, &mut buffer).unwrap();

    assert_eq!(
        rows(&buffer),
        padded(
            &[
                "Let's wrap this text that is long enough",
                "to do so.",
                "And it has a newline."
            ],
            40
        )
    );
}

#[test]
fn strokes_follow_the_rows_of_the_rectangle() {
    let text = Text::new_with_wrap("abcdef".to_string(), TextWrap::Wrapped);
    let strokes = text.strokes(Rect::new(5, 7, 2, 2)).unwrap();
    assert_eq!(
        strokes,
        vec![
            Stroke::Piece { x: 5, y: 7, line: Line { start: 0, end: 2 }, max_width: 2 },
            Stroke::Piece { x: 5, y: 8, line: Line { start: 2, end: 4 }, max_width: 2 },
        ]
    );
}

#[test]
fn strokes_of_a_rectangle_without_rows_are_none() {
    let text = Text::from("abcdef");
    assert_eq!(text.strokes(Rect::new(0, 0, 10, 0)).unwrap(), vec![]);
    let dotted = Text::new_with_wrap("abcdef".to_string(), TextWrap::TruncateWithEllipsis);
    assert_eq!(dotted.strokes(Rect::new(0, 0, 6, 0)).unwrap(), vec![]);
}

#[test]
fn dots_replace_the_last_three_columns_of_a_full_line() {
    let text = Text::new_with_wrap("abcdefgh".to_string(), TextWrap::TruncateWithEllipsis);
    assert_eq!(
        text.strokes(Rect::new(2, 1, 6, 1)).unwrap(),
        vec![
            Stroke::Piece { x: 2, y: 1, line: Line { start: 0, end: 3 }, max_width: 6 },
            Stroke::Dots { x: 5, y: 1 },
        ]
    );
    let mut buffer = screen(10, 2);
    text.render_ref(Rect::new(2, 1, 6, 1), &mut buffer).unwrap();
    assert_eq!(rows(&buffer), padded(&["", "  abc..."], 10));
}

#[test]
fn a_line_shorter_than_the_width_gets_no_dots() {
    let text = Text::new_with_wrap("abcde".to_string(), TextWrap::TruncateWithEllipsis);
    assert_eq!(
        text.strokes(Rect::new(0, 0, 6, 1)).unwrap(),
        vec![Stroke::Piece { x: 0, y: 0, line: Line { start: 0, end: 5 }, max_width: 6 }]
    );
    let mut buffer = screen(6, 1);
    text.render_ref(Rect::new(0, 0, 6, 1), &mut buffer).unwrap();
    assert_eq!(rows(&buffer), vec!["abcde "]);
}

#[test]
fn a_width_under_three_gets_no_dots() {
    let text = Text::new_with_wrap("abcde".to_string(), TextWrap::TruncateWithEllipsis);
    assert_eq!(
        text.strokes(Rect::new(0, 0, 2, 1)).unwrap(),
        vec![Stroke::Piece { x: 0, y: 0, line: Line { start: 0, end: 2 }, max_width: 2 }]
    );
    assert_eq!(
        text.strokes(Rect::new(0, 0, 3, 1)).unwrap(),
        vec![
            Stroke::Piece { x: 0, y: 0, line: Line { start: 0, end: 0 }, max_width: 3 },
            Stroke::Dots { x: 0, y: 0 },
        ]
    );
}

#[test]
fn dots_never_cut_a_character() {
    let text = Text::new_with_wrap("aé-bcd".to_string(), TextWrap::TruncateWithEllipsis);
    assert_eq!(
        text.strokes(Rect::new(0, 0, 5, 1)).unwrap(),
        vec![
            Stroke::Piece { x: 0, y: 0, line: Line { start: 0, end: 1 }, max_width: 5 },
            Stroke::Dots { x: 2, y: 0 },
        ]
    );
}

#[test]
fn reserved_policies_paint_nothing() {
    let text = Text::new_with_wrap("abc".to_string(), TextWrap::WrappedCentered);
    let mut buffer = screen(5, 1);
    assert_eq!(
        text.render_ref(Rect::new(0, 0, 5, 1), &mut buffer),
        Err(LayoutError::UnimplementedPolicy)
    );
    assert_eq!(rows(&buffer), vec!["     "]);
    assert_eq!(
        text.strokes(Rect::new(0, 0, 5, 1)),
        Err(LayoutError::UnimplementedPolicy)
    );
}

#[test]
fn rows_outside_the_buffer_are_left_out() {
    let text = Text::new_with_wrap("abcdef".to_string(), TextWrap::Wrapped);
    let mut buffer = screen(4, 2);
    text.render_ref(Rect::new(1, 1, 2, 3), &mut buffer).unwrap();
    assert_eq!(rows(&buffer), vec!["    ", " ab "]);
    let mut other = screen(4, 2);
    text.render_ref(Rect::new(10, 0, 2, 3), &mut other).unwrap();
    assert_eq!(rows(&other), vec!["    ", "    "]);
}

#[test]
fn a_buffer_with_missing_cells_is_left_alone() {
    let text = Text::from("abc");
    let mut buffer = screen(4, 2);
    buffer.content.truncate(3);
    text.render_ref(Rect::new(0, 0, 4, 2), &mut buffer).unwrap();
    assert_eq!(buffer.content.len(), 3);
    assert_eq!(rows(&buffer), vec!["   "]);
}

#[test]
fn painting_prints_given_strokes() {
    let text = Text::from("hello");
    let mut buffer = screen(6, 2);
    let strokes = vec![
        Stroke::Piece { x: 1, y: 1, line: Line { start: 1, end: 4 }, max_width: 2 },
        Stroke::Dots { x: 0, y: 0 },
        Stroke::Piece { x: 0, y: 0, line: Line { start: 4, end: 9 }, max_width: 2 },
    ];
    text.paint(&strokes, &mut buffer);
    assert_eq!(rows(&buffer), vec!["...   ", " el   "]);
}
