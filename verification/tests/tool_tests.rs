use neonmachines::tools::{
    chunk_count, cut_is_clean, cut_output, max_bytes_of, read_window, resolve_path, reverse_text,
    yes_no_paragraphs,
};

#[test]
fn paths_resolve_against_the_working_directory() {
    assert_eq!(resolve_path("/srv/app", "notes.txt"), "/srv/app/notes.txt");
    assert_eq!(resolve_path("/srv/app/", "notes.txt"), "/srv/app/notes.txt");
    assert_eq!(resolve_path("/srv/app", "/etc/hosts"), "/etc/hosts");
    assert_eq!(resolve_path("", "a"), "a");
    assert_eq!(resolve_path(".", "sub/dir"), "./sub/dir");
}

const TEXT: &str = "zero\none\ntwo\nthree\nfour\n";

#[test]
fn whole_file_is_numbered() {
    let w = read_window(TEXT, None, None, None, None);
    assert_eq!(w.start, 0);
    assert_eq!(w.end, 5);
    assert_eq!(w.lines, 5);
    assert_eq!(w.content, "    0: zero\n    1: one\n    2: two\n    3: three\n    4: four");
}

#[test]
fn a_range_of_lines() {
    let w = read_window(TEXT, Some(1), Some(3), None, None);
    assert_eq!((w.start, w.end, w.lines), (1, 3, 2));
    assert_eq!(w.content, "    1: one\n    2: two");
    let w = read_window(TEXT, Some(-4), Some(99), None, None);
    assert_eq!((w.start, w.end, w.lines), (0, 5, 5));
    let w = read_window(TEXT, Some(4), Some(2), None, None);
    assert_eq!((w.start, w.end, w.lines), (4, 2, 0));
    assert_eq!(w.content, "");
}

#[test]
fn lines_around_a_line() {
    let w = read_window(TEXT, None, None, Some(1), Some(3));
    assert_eq!((w.start, w.end, w.lines), (2, 5, 3));
    assert_eq!(w.content, "    2: two\n    3: three\n    4: four");
    let w = read_window(TEXT, Some(4), None, Some(5), Some(0));
    assert_eq!((w.start, w.end), (0, 5));
    let w = read_window(TEXT, None, None, None, Some(1));
    assert_eq!(w.content, "    1: one");
}

#[test]
fn wide_line_numbers_are_not_padded() {
    let mut text = String::new();
    for i in 0..100001 {
        text.push_str(&format!("{}\n", i));
    }
    let w = read_window(&text, None, None, None, Some(100000));
    assert_eq!(w.content, "100000: 100000");
}

#[test]
fn output_is_cut_at_the_byte_limit() {
    assert_eq!(cut_output("abcdef", 10), "abcdef");
    assert_eq!(cut_output("abcdef", 6), "abcdef");
    assert_eq!(cut_output("abcdef", 3), "abc\n...[truncated]");
    assert!(cut_is_clean("héllo", 3));
    assert!(!cut_is_clean("héllo", 2));
    assert!(cut_is_clean("hé", 99));
    assert_eq!(cut_output("héllo", 3), "hé\n...[truncated]");
    assert_eq!(max_bytes_of(None), 8192);
    assert_eq!(max_bytes_of(Some(0)), 1);
    assert_eq!(max_bytes_of(Some(-5)), 1);
    assert_eq!(max_bytes_of(Some(12)), 12);
}

#[test]
fn paragraphs_get_yes_or_no() {
    assert_eq!(
        yes_no_paragraphs("First: YES indeed\n\nsecond no\n\n\nthird yes"),
        vec!["yes".to_string(), "no".to_string(), "yes".to_string()]
    );
    assert_eq!(yes_no_paragraphs(""), vec!["no".to_string()]);
}

#[test]
fn text_tools() {
    assert_eq!(reverse_text("abc"), "cba");
    assert_eq!(reverse_text("héllo"), "olléh");
    assert_eq!(reverse_text(""), "");
    assert_eq!(chunk_count(0), 0);
    assert_eq!(chunk_count(1), 1);
    assert_eq!(chunk_count(8192), 1);
    assert_eq!(chunk_count(8193), 2);
}

#[test]
fn case_and_trim_tools() {
    use_tools();
}

fn use_tools() {
    assert_eq!(neonmachines::tools::upper_text("straße"), "STRASSE");
    assert_eq!(neonmachines::tools::lower_text("ÀB"), "àb");
    assert_eq!(neonmachines::tools::trim_text("  a b \n"), "a b");
}
