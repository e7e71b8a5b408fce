use stu_view::help::{AppInfo, HelpAction, HelpPage, KeyInput};
use stu_view::text::{SpanColor, StyledLine};
use stu_view::util::group_strings_to_fit_width;

fn info() -> AppInfo {
    AppInfo {
        name: "STU".to_string(),
        description: "TUI application for AWS S3 written in Rust using ratatui".to_string(),
        version: "0.4.1".to_string(),
        homepage: "https://github.com/lusingander/stu".to_string(),
    }
}

fn line_text(line: &StyledLine) -> String {
    line.spans
        .iter()
        .map(|sp| sp.content.as_str())
        .collect::<Vec<_>>()
        .concat()
}

#[test]
fn test_render() {
    let helps: Vec<String> = [
        "<key1>: action1",
        "<key2>: action2",
        "<key3>: action3",
        "<key4>: action4",
    ]
    .iter()
    .map(|s| s.to_string())
    .collect();
    let page = HelpPage::new(helps);
    // the original frame is 70 columns wide, 68 inside the borders
    let lines = page.render(68, &info());

    let texts: Vec<String> = lines.iter().map(line_text).collect();
    assert_eq!(
        texts,
        vec![
            " STU - TUI application for AWS S3 written in Rust using ratatui".to_string(),
            "".to_string(),
            " Version: 0.4.1".to_string(),
            "".to_string(),
            " https://github.com/lusingander/stu".to_string(),
            "".to_string(),
            "-".repeat(68),
            "".to_string(),
            " <key1>: action1,  <key2>: action2,  <key3>: action3 ".to_string(),
            "".to_string(),
            " <key4>: action4 ".to_string(),
            "".to_string(),
        ]
    );
    // the homepage is the link colour, the divider the divider colour
    assert_eq!(lines[4].spans[0].color, SpanColor::Blue);
    assert_eq!(lines[6].spans[0].color, SpanColor::DarkGray);
    assert_eq!(lines[0].spans[0].color, SpanColor::Default);
}

#[test]
fn test_handle_key() {
    let page = HelpPage::new(Vec::new());
    assert_eq!(page.handle_key(KeyInput::Esc), Some(HelpAction::Quit));
    assert_eq!(page.handle_key(KeyInput::Backspace), Some(HelpAction::CloseHelp));
    assert_eq!(page.handle_key(KeyInput::Char('?')), Some(HelpAction::ToggleHelp));
    assert_eq!(page.handle_key(KeyInput::Char('x')), None);
    assert_eq!(page.handle_key(KeyInput::Other), None);
}

#[test]
fn test_helps_and_short_helps() {
    let page = HelpPage::new(vec!["<x>: y".to_string()]);
    assert!(page.helps().is_empty());
    let shorts = page.short_helps();
    assert_eq!(
        shorts,
        vec![("<Esc>: Quit".to_string(), 0), ("<?>: Close help".to_string(), 0)]
    );
}

#[test]
fn test_group_strings_fit() {
    let items: Vec<String> = ["aa", "bb", "cc", "dd"].iter().map(|s| s.to_string()).collect();
    // joined with ",  " two items take 8 columns, three take 14
    let groups = group_strings_to_fit_width(&items, 8, ",  ");
    assert_eq!(
        groups,
        vec![
            vec!["aa".to_string(), "bb".to_string()],
            vec!["cc".to_string(), "dd".to_string()],
        ]
    );
}

#[test]
fn test_group_strings_overlong_item() {
    let items: Vec<String> = ["tiny", "much too wide to fit", "end"]
        .iter()
        .map(|s| s.to_string())
        .collect();
    let groups = group_strings_to_fit_width(&items, 10, ",  ");
    assert_eq!(
        groups,
        vec![
            vec!["tiny".to_string()],
            vec!["much too wide to fit".to_string()],
            vec!["end".to_string()],
        ]
    );
}

#[test]
fn test_render_narrow_frame() {
    // at a width under the padding the help entries each stand alone
    let helps: Vec<String> = ["<a>: one", "<b>: two"].iter().map(|s| s.to_string()).collect();
    let page = HelpPage::new(helps);
    let lines = page.render(1, &info());
    let texts: Vec<String> = lines.iter().map(line_text).collect();
    assert_eq!(texts[6], "-");
    assert_eq!(texts[8], " <a>: one ");
    assert_eq!(texts[10], " <b>: two ");
}
