use stu_view::scroll::{ScrollLines, ScrollLinesOptions, ScrollLinesRender, ScrollLinesState};
use stu_view::text::StyledLine;

fn state(number: bool, wrap: bool) -> ScrollLinesState {
    let original_lines: Vec<String> = [
        "aaa bbb ccc ddd",
        "aaa bbb ccc",
        "aaa",
        "aaa bbb ",
        "aaa bbb ccc ddd eee",
        "aaaaaaaa bbbbbbbb",
        "",
        "01234567890123456789",
        "a",
        "b",
        "c",
        "d",
        "e",
        "aaa bbb ccc ddd eee fff ggg",
        "f",
        "g",
    ]
    .iter()
    .map(|s| s.to_string())
    .collect();
    let lines = original_lines
        .iter()
        .map(|s| StyledLine::raw(s.clone()))
        .collect();
    let title = "TITLE".to_string();
    let options = ScrollLinesOptions { number, wrap };
    ScrollLinesState::new(lines, original_lines, title, options)
}

// The content area of the original 20x7 frame: 18 columns by 5 rows, which
// leaves 13 columns for the body beside the 3-column gutter.
fn render(state: &mut ScrollLinesState) -> ScrollLinesRender {
    ScrollLines::default().render(18, 5, state)
}

fn gutter(out: &ScrollLinesRender) -> Vec<&str> {
    out.gutter_rows.iter().map(|s| s.as_str()).collect()
}

fn body_text(out: &ScrollLinesRender) -> Vec<String> {
    out.body_lines
        .iter()
        .map(|l| {
            l.spans
                .iter()
                .map(|sp| sp.content.as_str())
                .collect::<Vec<_>>()
                .concat()
        })
        .collect()
}

#[test]
fn test_scroll_lines_scroll() {
    let mut state = state(true, true);

    let out = render(&mut state);
    assert_eq!(state.vertical_offset(), 0);
    assert_eq!(out.text_width, 13);
    assert_eq!(gutter(&out), vec![" 1", "", " 2", " 3", " 4"]);
    assert_eq!(
        body_text(&out),
        vec!["aaa bbb ccc ddd", "aaa bbb ccc", "aaa", "aaa bbb ", "aaa bbb ccc ddd eee"]
    );

    state.scroll_forward();
    let out = render(&mut state);
    assert_eq!(state.vertical_offset(), 1);
    assert_eq!(gutter(&out), vec![" 2", " 3", " 4", " 5", ""]);

    state.scroll_forward();
    let out = render(&mut state);
    assert_eq!(state.vertical_offset(), 2);
    assert_eq!(gutter(&out), vec![" 3", " 4", " 5", "", " 6"]);

    state.scroll_page_forward();
    let out = render(&mut state);
    assert_eq!(state.vertical_offset(), 5);
    assert_eq!(gutter(&out), vec![" 6", "", " 7", " 8", ""]);

    state.scroll_page_forward();
    let out = render(&mut state);
    assert_eq!(state.vertical_offset(), 8);
    assert_eq!(gutter(&out), vec![" 9", "10", "11", "12", "13"]);

    state.scroll_to_end();
    let out = render(&mut state);
    assert_eq!(state.vertical_offset(), 15);
    assert_eq!(gutter(&out), vec!["16", "", "", "", ""]);
    assert_eq!(body_text(&out), vec!["g"]);

    state.scroll_page_backward();
    let out = render(&mut state);
    assert_eq!(state.vertical_offset(), 13);
    assert_eq!(gutter(&out), vec!["14", "", "", "15", "16"]);

    state.scroll_page_backward();
    let out = render(&mut state);
    assert_eq!(state.vertical_offset(), 11);
    assert_eq!(gutter(&out), vec!["12", "13", "14", "", ""]);

    state.scroll_backward();
    let out = render(&mut state);
    assert_eq!(state.vertical_offset(), 10);
    assert_eq!(gutter(&out), vec!["11", "12", "13", "14", ""]);

    state.scroll_to_top();
    let out = render(&mut state);
    assert_eq!(state.vertical_offset(), 0);
    assert_eq!(gutter(&out), vec![" 1", "", " 2", " 3", " 4"]);
}

#[test]
fn test_scroll_lines_options() {
    let mut state = state(true, true);

    let out = render(&mut state);
    assert_eq!(out.gutter_width, 3);
    assert_eq!(out.text_width, 13);
    assert!(out.wrap);

    state.toggle_number();
    let out = render(&mut state);
    assert_eq!(out.gutter_width, 0);
    assert!(out.gutter_rows.is_empty());
    assert_eq!(out.text_width, 16);
    assert_eq!(state.vertical_offset(), 0);

    state.toggle_number();
    state.toggle_wrap();
    let out = render(&mut state);
    assert_eq!(out.gutter_width, 3);
    assert!(!out.wrap);
    assert_eq!(out.horizontal_offset, 0);
    // without wrap every line is one row tall
    assert_eq!(gutter(&out), vec![" 1", " 2", " 3", " 4", " 5"]);

    state.scroll_right();
    let out = render(&mut state);
    assert_eq!(out.horizontal_offset, 1);

    state.toggle_number();
    let out = render(&mut state);
    assert_eq!(out.gutter_width, 0);
    assert!(out.gutter_rows.is_empty());
    assert_eq!(out.horizontal_offset, 1);
}

#[test]
fn test_page_forward_exact_boundary() {
    // Sixteen lines in a window 5 rows tall and 16 body columns wide; the
    // fourth line wraps to two rows, so lines 1-4 occupy exactly 5 rows
    // and a page forward lands on line 5 (offset 4).
    let original_lines: Vec<String> = [
        "aaa",
        "bbb",
        "ccc",
        "first words then more words",
        "ddd",
        "eee",
        "fff",
        "ggg",
        "hhh",
        "iii",
        "jjj",
        "kkk",
        "lll",
        "mmm",
        "nnn",
        "ooo",
    ]
    .iter()
    .map(|s| s.to_string())
    .collect();
    let lines = original_lines
        .iter()
        .map(|s| StyledLine::raw(s.clone()))
        .collect();
    let mut state = ScrollLinesState::new(
        lines,
        original_lines,
        "T".to_string(),
        ScrollLinesOptions { number: true, wrap: true },
    );
    // gutter 3 wide plus 2 padding: 21 columns leave 16 for the body
    let out = ScrollLines::default().render(21, 5, &mut state);
    assert_eq!(out.text_width, 16);
    assert_eq!(gutter(&out), vec![" 1", " 2", " 3", " 4", ""]);

    state.scroll_page_forward();
    ScrollLines::default().render(21, 5, &mut state);
    assert_eq!(state.vertical_offset(), 4);
}

#[test]
fn test_page_backward_from_end() {
    // From the last line, one page backward lands on a fully visible top
    // line while the old top stays visible at the bottom of the window:
    // lines 14 (3 rows), 15 and 16 fill the 5 rows exactly.
    let mut state = state(true, true);
    state.scroll_to_end();
    render(&mut state);
    assert_eq!(state.vertical_offset(), 15);

    state.scroll_page_backward();
    let out = render(&mut state);
    assert_eq!(state.vertical_offset(), 13);
    assert_eq!(gutter(&out), vec!["14", "", "", "15", "16"]);
}

#[test]
fn test_page_round_trip_at_end() {
    // A page forward that runs into the end of the content, followed by a
    // page backward, leaves the starting top line fully visible again.
    let original_lines: Vec<String> = ["a", "b", "c", "d", "e", "f", "g", "h"]
        .iter()
        .map(|s| s.to_string())
        .collect();
    let lines = original_lines
        .iter()
        .map(|s| StyledLine::raw(s.clone()))
        .collect();
    let mut state = ScrollLinesState::new(
        lines,
        original_lines,
        "T".to_string(),
        ScrollLinesOptions { number: true, wrap: true },
    );
    for _ in 0..4 {
        state.scroll_forward();
        render(&mut state);
    }
    assert_eq!(state.vertical_offset(), 4);

    // only four lines remain below: the walk runs out and jumps to the end
    state.scroll_page_forward();
    render(&mut state);
    assert_eq!(state.vertical_offset(), 7);

    // paging back keeps line 5 (offset 4) inside the 5-row window
    state.scroll_page_backward();
    render(&mut state);
    assert_eq!(state.vertical_offset(), 3);
}

#[test]
fn test_number_toggle_keeps_offset() {
    let mut state = state(true, true);
    state.scroll_forward();
    render(&mut state);
    assert_eq!(state.vertical_offset(), 1);

    state.toggle_number();
    let out = render(&mut state);
    assert_eq!(out.gutter_width, 0);
    assert_eq!(out.gutter_rows.len(), 0);
    assert_eq!(out.text_width, 16);
    assert_eq!(state.vertical_offset(), 1);

    state.toggle_number();
    let out = render(&mut state);
    assert_eq!(out.gutter_width, 3);
    assert_eq!(state.vertical_offset(), 1);
}

#[test]
fn test_column_scroll_clamps() {
    let mut state = state(true, false);
    // the widest line has 27 characters, so the pan stops at column 26
    for _ in 0..40 {
        state.scroll_right();
        render(&mut state);
    }
    assert_eq!(state.horizontal_offset(), 26);
    state.scroll_right();
    let out = render(&mut state);
    assert_eq!(out.horizontal_offset, 26);

    for _ in 0..40 {
        state.scroll_left();
        render(&mut state);
    }
    assert_eq!(state.horizontal_offset(), 0);
    state.scroll_left();
    let out = render(&mut state);
    assert_eq!(out.horizontal_offset, 0);
}

#[test]
fn test_empty_content_is_noop() {
    let mut state = ScrollLinesState::new(
        Vec::new(),
        Vec::new(),
        "EMPTY".to_string(),
        ScrollLinesOptions::default(),
    );
    state.scroll_page_forward();
    let out = render(&mut state);
    assert_eq!(state.vertical_offset(), 0);
    assert_eq!(out.body_lines.len(), 0);
    assert_eq!(gutter(&out), vec!["", "", "", "", ""]);

    state.scroll_to_end();
    render(&mut state);
    assert_eq!(state.vertical_offset(), 0);

    state.scroll_forward();
    render(&mut state);
    assert_eq!(state.vertical_offset(), 0);
}

#[test]
fn test_top_end_top_round_trip() {
    let mut state = state(true, true);
    state.scroll_to_top();
    render(&mut state);
    assert_eq!(state.vertical_offset(), 0);
    state.scroll_to_end();
    render(&mut state);
    assert_eq!(state.vertical_offset(), 15);
    state.scroll_to_top();
    render(&mut state);
    assert_eq!(state.vertical_offset(), 0);
}

#[test]
fn test_toggle_wrap_resets_pan() {
    let mut state = state(true, false);
    state.scroll_right();
    render(&mut state);
    state.scroll_right();
    render(&mut state);
    assert_eq!(state.horizontal_offset(), 2);

    state.toggle_wrap();
    assert!(state.options().wrap);
    assert_eq!(state.horizontal_offset(), 0);
    state.toggle_wrap();
    assert!(!state.options().wrap);
    assert_eq!(state.horizontal_offset(), 0);
}

#[test]
fn test_line_forward_clamps_at_end() {
    let mut state = state(true, true);
    state.scroll_to_end();
    render(&mut state);
    assert_eq!(state.vertical_offset(), 15);
    state.scroll_forward();
    render(&mut state);
    assert_eq!(state.vertical_offset(), 15);
    state.scroll_backward();
    render(&mut state);
    assert_eq!(state.vertical_offset(), 14);
}

#[test]
fn test_body_block_slice() {
    let mut state = state(true, true);
    state.scroll_forward();
    let out = render(&mut state);
    assert_eq!(
        body_text(&out),
        vec!["aaa bbb ccc", "aaa", "aaa bbb ", "aaa bbb ccc ddd eee", "aaaaaaaa bbbbbbbb"]
    );
    assert_eq!(out.title, "TITLE");
}
