use strotui::{LayoutError, Line, Text, TextWrap};

fn pieces(text: &Text, width: u16) -> Vec<String> {
    let lines = text.get_lines(width).unwrap();
    lines
        .iter()
        .map(|line| text.line_text(line).unwrap().to_string())
        .collect()
}

fn wrapped(text: &str) -> Text {
    Text::new_with_wrap(text.to_string(), TextWrap::Wrapped)
}

#[test]
fn wrapped_slices_fixed_width() {
    let text = wrapped("abcdef");
    assert_eq!(pieces(&text, 2), vec!["ab", "cd", "ef"]);
    assert_eq!(
        text.get_lines(2).unwrap(),
        vec![
            Line { start: 0, end: 2 },
            Line { start: 2, end: 4 },
            Line { start: 4, end: 6 }
        ]
    );
    assert_eq!(text.get_height(2), Ok(3));
}

#[test]
fn words_that_fit_exactly_stay_on_one_line() {
    let text = Text::from("Hello, world!");
    assert_eq!(pieces(&text, 13), vec!["Hello, world!"]);
    assert_eq!(text.get_height(13), Ok(1));
}

#[test]
fn a_long_word_is_broken_at_the_width() {
    let token = "x".repeat(46);
    let text = Text::new(token.clone());
    assert_eq!(pieces(&text, 40), vec!["x".repeat(40), "x".repeat(6)]);
    assert_eq!(
        text.get_lines_wrapped_words(40),
        vec![Line { start: 0, end: 40 }, Line { start: 40, end: 46 }]
    );
}

#[test]
fn a_newline_ends_a_wrapped_line_early() {
    let text = wrapped("ab\ncdefg");
    assert_eq!(pieces(&text, 4), vec!["ab", "cdef", "g"]);
    assert_eq!(
        text.get_lines_wrapped(4),
        vec![
            Line { start: 0, end: 2 },
            Line { start: 3, end: 7 },
            Line { start: 7, end: 8 }
        ]
    );
}

#[test]
fn a_newline_at_the_window_end_starts_an_empty_line() {
    let text = wrapped("abcd\nef");
    assert_eq!(pieces(&text, 4), vec!["abcd", "", "ef"]);
    let blank = wrapped("\n\nx");
    assert_eq!(pieces(&blank, 4), vec!["", "", "x"]);
}

#[test]
fn a_newline_ends_a_word_wrapped_line_before_its_break() {
    let text = Text::from("aaa bbb\nccc ddd");
    assert_eq!(pieces(&text, 10), vec!["aaa bbb", "ccc ddd"]);
}

#[test]
fn word_wrap_breaks_at_the_last_space() {
    let text = Text::from("one two three four");
    assert_eq!(pieces(&text, 9), vec!["one two", "three", "four"]);
    assert_eq!(
        text.get_lines(9).unwrap(),
        vec![
            Line { start: 0, end: 7 },
            Line { start: 8, end: 13 },
            Line { start: 14, end: 18 }
        ]
    );
}

#[test]
fn word_wrap_drops_the_spaces_after_a_break() {
    let text = Text::from("ab    cd");
    assert_eq!(pieces(&text, 2), vec!["ab", "cd"]);
    let text = Text::from("ab   ");
    assert_eq!(pieces(&text, 2), vec!["ab"]);
}

#[test]
fn word_wrap_of_leading_spaces() {
    let text = Text::from(" abc");
    assert_eq!(pieces(&text, 2), vec!["", "ab", "c"]);
}

#[test]
fn truncate_gives_one_line_whatever_the_text() {
    for policy in [TextWrap::Truncate, TextWrap::TruncateWithEllipsis] {
        let text = Text::new_with_wrap("first\nsecond\n\nfourth".to_string(), policy);
        assert_eq!(pieces(&text, 8), vec!["first\nse"]);
        assert_eq!(text.get_lines_truncate(8), vec![Line { start: 0, end: 8 }]);
        assert_eq!(text.get_height(8), Ok(1));
        assert_eq!(text.get_height(1000), Ok(1));
        let empty = Text::new_with_wrap(String::new(), policy);
        assert_eq!(empty.get_lines(5).unwrap(), vec![Line { start: 0, end: 0 }]);
        assert_eq!(empty.get_height(5), Ok(1));
    }
}

#[test]
fn height_is_the_number_of_lines() {
    let samples = ["", "a", "one two three", "a\nb\n\nc", "   ", "word ".repeat(50).as_str()]
        .map(|s| s.to_string());
    for sample in samples {
        for policy in [
            TextWrap::Truncate,
            TextWrap::TruncateWithEllipsis,
            TextWrap::Wrapped,
            TextWrap::WrappedWords,
        ] {
            for width in [1u16, 2, 3, 7, 40, 1000] {
                let text = Text::new_with_wrap(sample.clone(), policy);
                assert_eq!(
                    text.get_height(width).unwrap() as usize,
                    text.get_lines(width).unwrap().len()
                );
            }
        }
    }
}

#[test]
fn height_stops_at_the_largest_row_count() {
    let text = wrapped(&"\n".repeat(70000));
    assert_eq!(text.get_lines(5).unwrap().len(), 70000);
    assert_eq!(text.get_height(5), Ok(u16::MAX));
    let text = wrapped(&"\n".repeat(65535));
    assert_eq!(text.get_height(5), Ok(65535));
}

#[test]
fn layout_twice_is_the_same() {
    let text = Text::from("Let's wrap this text that is long enough to do so.\nAnd more.");
    assert_eq!(text.get_lines(12), text.get_lines(12));
    let again = Text::from("Let's wrap this text that is long enough to do so.\nAnd more.");
    assert_eq!(text.get_lines(12), again.get_lines(12));
    assert_eq!(pieces(&text, 12), pieces(&again, 12));
}

#[test]
fn width_zero_has_no_window() {
    assert_eq!(wrapped("abc").get_lines(0).unwrap(), vec![]);
    assert_eq!(wrapped("abc").get_height(0), Ok(0));
    assert_eq!(Text::from("abc def").get_lines(0).unwrap(), vec![]);
    let cut = Text::new_with_wrap("abc".to_string(), TextWrap::Truncate);
    assert_eq!(cut.get_lines(0).unwrap(), vec![Line { start: 0, end: 0 }]);
    assert_eq!(cut.get_height(0), Ok(1));
}

#[test]
fn empty_text_has_no_wrapped_line() {
    assert_eq!(wrapped("").get_lines(4).unwrap(), vec![]);
    assert_eq!(Text::from("").get_lines(4).unwrap(), vec![]);
    assert_eq!(Text::from("").get_height(4), Ok(0));
}

#[test]
fn lines_never_cut_a_character() {
    let text = wrapped("ééé");
    assert_eq!(pieces(&text, 3), vec!["é", "é", "é"]);
    assert_eq!(pieces(&text, 4), vec!["éé", "é"]);
    assert_eq!(text.get_lines(1).unwrap(), vec![]);
    let words = Text::from("née à");
    assert_eq!(pieces(&words, 4), vec!["née", "à"]);
    let cut = Text::new_with_wrap("日本".to_string(), TextWrap::Truncate);
    assert_eq!(pieces(&cut, 5), vec!["日"]);
    assert_eq!(pieces(&cut, 2), vec![""]);
}

#[test]
fn reserved_policies_are_errors() {
    for policy in [
        TextWrap::WrappedJustified,
        TextWrap::WrappedCentered,
        TextWrap::WrappedRightAligned,
    ] {
        let text = Text::new_with_wrap("abc".to_string(), policy);
        assert_eq!(text.get_lines(10), Err(LayoutError::UnimplementedPolicy));
        assert_eq!(text.get_height(10), Err(LayoutError::UnimplementedPolicy));
    }
    let text = Text::from("abc");
    assert_eq!(
        text.get_lines_wrapped_justified(3),
        Err(LayoutError::UnimplementedPolicy)
    );
    assert_eq!(
        text.get_lines_wrapped_centered(3),
        Err(LayoutError::UnimplementedPolicy)
    );
    assert_eq!(
        text.get_lines_wrapped_right_aligned(3),
        Err(LayoutError::UnimplementedPolicy)
    );
}

#[test]
fn a_text_keeps_its_string_and_policy() {
    let text = Text::new("abc".to_string());
    assert_eq!(text.as_str(), "abc");
    assert_eq!(text.wrap(), TextWrap::WrappedWords);
    let text = Text::new_with_wrap("xyz".to_string(), TextWrap::Truncate);
    assert_eq!(text.as_str(), "xyz");
    assert_eq!(text.wrap(), TextWrap::Truncate);
    assert_eq!(Text::from("q").wrap(), TextWrap::WrappedWords);
}

#[test]
fn line_text_refuses_ranges_that_are_no_lines() {
    let text = Text::from("aéb");
    assert_eq!(text.line_text(&Line { start: 0, end: 4 }), Some("aéb"));
    assert_eq!(text.line_text(&Line { start: 1, end: 3 }), Some("é"));
    assert_eq!(text.line_text(&Line { start: 2, end: 2 }), None);
    assert_eq!(text.line_text(&Line { start: 1, end: 2 }), None);
    assert_eq!(text.line_text(&Line { start: 3, end: 1 }), None);
    assert_eq!(text.line_text(&Line { start: 0, end: 5 }), None);
    assert_eq!(Line { start: 1, end: 3 }.len(), 2);
    assert_eq!(Line { start: 3, end: 1 }.len(), 0);
}

#[test]
fn a_character_wider_than_the_width_ends_the_lines() {
    let text = wrapped("ab日cd");
    assert_eq!(pieces(&text, 2), vec!["ab"]);
    assert_eq!(pieces(&text, 3), vec!["ab", "日", "cd"]);
    assert_eq!(text.get_height(2), Ok(1));
    let words = Text::from("ab 日 cd");
    assert_eq!(pieces(&words, 2), vec!["ab"]);
    assert_eq!(pieces(&words, 4), vec!["ab", "日", "cd"]);
    let emoji = wrapped("a😀b");
    assert_eq!(pieces(&emoji, 3), vec!["a"]);
    assert_eq!(pieces(&emoji, 4), vec!["a", "😀", "b"]);
}
