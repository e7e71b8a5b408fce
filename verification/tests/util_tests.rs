use stu_view::path::parse_path;
use stu_view::util::{digits, format_line_number, trim_quotes};

#[test]
fn test_digits() {
    assert_eq!(digits(0), 1);
    assert_eq!(digits(1), 1);
    assert_eq!(digits(9), 1);
    assert_eq!(digits(10), 2);
    assert_eq!(digits(16), 2);
    assert_eq!(digits(99), 2);
    assert_eq!(digits(100), 3);
    assert_eq!(digits(65535), 5);
}

#[test]
fn test_format_line_number() {
    assert_eq!(format_line_number(1, 2), " 1");
    assert_eq!(format_line_number(16, 2), "16");
    assert_eq!(format_line_number(7, 4), "   7");
    assert_eq!(format_line_number(123, 2), "123");
    assert_eq!(format_line_number(0, 3), "  0");
    assert_eq!(format_line_number(90210, 5), "90210");
}

#[test]
fn test_trim_quotes() {
    assert_eq!(trim_quotes("\"abc\""), "abc");
    assert_eq!(trim_quotes("abc"), "abc");
    assert_eq!(trim_quotes("\"\""), "");
    assert_eq!(trim_quotes(""), "");
    assert_eq!(trim_quotes("\"\"\"x\"\""), "x");
    assert_eq!(trim_quotes("a\"b"), "a\"b");
    assert_eq!(trim_quotes("\"etag-value\""), "etag-value");
}

#[test]
fn test_parse_path_file() {
    assert_eq!(
        parse_path("dir1/dir2/object.txt", false),
        vec!["dir1".to_string(), "dir2".to_string(), "object.txt".to_string()]
    );
    assert_eq!(parse_path("object.txt", false), vec!["object.txt".to_string()]);
    assert_eq!(parse_path("", false), vec!["".to_string()]);
    assert_eq!(
        parse_path("a//b", false),
        vec!["a".to_string(), "".to_string(), "b".to_string()]
    );
}

#[test]
fn test_parse_path_dir() {
    // a directory key ends in the delimiter; the empty tail is dropped
    assert_eq!(
        parse_path("dir1/dir2/", true),
        vec!["dir1".to_string(), "dir2".to_string()]
    );
    assert_eq!(parse_path("dir1/", true), vec!["dir1".to_string()]);
    let empty: Vec<String> = Vec::new();
    assert_eq!(parse_path("x", true), empty);
}
