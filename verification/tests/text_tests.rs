use trance::events::{poll_interval_ms, LoopTimers};
use trance::layout::{format_help_row, list_window, truncate, wrap_text};
use trance::registry::saver_name;
use trance::markdown::parse_markdown_to_lines;
use trance::model::{decimal_of, file_name_of, is_stock_screensaver};
use trance::theme::{Color, TuiTheme};

#[test]
fn truncate_keeps_short_text() {
    assert_eq!(truncate("hello", 5), "hello");
    assert_eq!(truncate("", 0), "");
}

#[test]
fn truncate_marks_cut_with_ellipsis() {
    assert_eq!(truncate("hello world", 5), "hell\u{2026}");
    assert_eq!(truncate("abc", 1), "\u{2026}");
    assert_eq!(truncate("abc", 0), "\u{2026}");
    assert_eq!(truncate("h\u{e9}llo", 3), "h\u{e9}\u{2026}");
}

#[test]
fn wrap_fills_lines_greedily() {
    assert_eq!(wrap_text("the quick brown fox", 10), vec!["the quick", "brown fox"]);
    assert_eq!(wrap_text("one two", 7), vec!["one two"]);
    assert_eq!(wrap_text("one two", 6), vec!["one", "two"]);
}

#[test]
fn wrap_gives_long_words_their_own_line() {
    assert_eq!(wrap_text("averyveryverylongword x", 5), vec!["averyveryverylongword", "x"]);
}

#[test]
fn wrap_keeps_paragraphs_and_zero_width() {
    assert_eq!(wrap_text("a b\nc", 10), vec!["a b", "c"]);
    assert_eq!(wrap_text("a\n\nb", 10), vec!["a", "b"]);
    assert_eq!(wrap_text("a b\nc", 0), vec!["a b\nc"]);
    assert_eq!(wrap_text("", 10), Vec::<String>::new());
}

#[test]
fn wrap_counts_bytes_not_chars() {
    // "\u{e9}\u{e9}" is four bytes: it does not fit with "a" in five bytes.
    assert_eq!(wrap_text("a \u{e9}\u{e9}", 5), vec!["a", "\u{e9}\u{e9}"]);
}

#[test]
fn help_row_wraps_description_under_its_column() {
    let theme = TuiTheme::high_contrast(true);
    let rows = format_help_row("Tab", "switch the focused pane", 10, &theme);
    assert_eq!(rows.len(), 3);
    assert_eq!(rows[0].spans.len(), 3);
    assert_eq!(rows[0].spans[0].text, "  Tab             ");
    assert!(rows[0].spans[0].style.bold);
    assert_eq!(rows[0].spans[0].style.fg, Some(Color::Yellow));
    assert_eq!(rows[0].spans[1].text, ": ");
    assert_eq!(rows[0].spans[2].text, "switch the");
    assert_eq!(rows[1].spans[0].text, " ".repeat(20));
    assert_eq!(rows[1].spans[1].text, "focused");
    assert_eq!(rows[2].spans[1].text, "pane");
    let empty = format_help_row("q", "", 10, &theme);
    assert_eq!(empty.len(), 1);
    assert_eq!(empty[0].spans.len(), 2);
}

#[test]
fn markdown_headings_lists_and_paragraphs() {
    let theme = TuiTheme::high_contrast(true);
    let lines = parse_markdown_to_lines("# Title\nsome\ntext\n- item\n1. first\n```\ncode\n```", &theme);
    let texts: Vec<Vec<String>> = lines
        .iter()
        .map(|l| l.spans.iter().map(|s| s.text.clone()).collect())
        .collect();
    assert_eq!(
        texts,
        vec![
            vec![""],
            vec!["=== TITLE ==="],
            vec![""],
            vec!["some text"],
            vec![" \u{2022} ", "item"],
            vec!["  1.  ", "first"],
            vec!["code"],
        ]
        .into_iter()
        .map(|l| l.into_iter().map(String::from).collect::<Vec<String>>())
        .collect::<Vec<_>>()
    );
    assert!(lines[1].spans[0].style.bold);
    assert_eq!(lines[6].spans[0].style.fg, Some(Color::Rgb(150, 240, 150)));
}

#[test]
fn file_names_of_windows_paths() {
    assert_eq!(file_name_of("C:\\Windows\\System32\\bubbles.scr"), Some("bubbles.scr".to_string()));
    assert_eq!(file_name_of("/home/u/beams"), Some("beams".to_string()));
    assert_eq!(file_name_of("plain.scr"), Some("plain.scr".to_string()));
    assert_eq!(file_name_of("C:\\dir\\.."), None);
    assert_eq!(file_name_of("C:\\dir\\sub\\"), Some("sub".to_string()));
    assert_eq!(file_name_of("a/b/."), Some("b".to_string()));
    assert_eq!(file_name_of("."), None);
    assert_eq!(file_name_of("name."), Some("name.".to_string()));
    assert_eq!(file_name_of(""), None);
}

#[test]
fn stock_screensavers_live_in_system32() {
    assert!(is_stock_screensaver("C:\\Windows\\System32\\bubbles.scr"));
    assert!(is_stock_screensaver("c:/WINDOWS/system32/mystify.scr"));
    assert!(!is_stock_screensaver("C:\\Users\\u\\AppData\\Local\\local76\\screensavers\\beams.scr"));
    assert!(!is_stock_screensaver("System32\\x.scr"));
}

#[test]
fn decimal_digits() {
    assert_eq!(decimal_of(0), vec!['0']);
    assert_eq!(decimal_of(120), vec!['1', '2', '0']);
}

#[test]
fn list_window_keeps_highlight_visible() {
    // Fits: nothing scrolls.
    assert_eq!(list_window(2, 0, 10, 5), (0, 0, 5));
    // Below the window: scroll down just enough.
    assert_eq!(list_window(12, 0, 10, 20), (3, 3, 13));
    // Above the window: scroll up to it.
    assert_eq!(list_window(1, 5, 10, 20), (1, 1, 11));
    // Never past the end.
    assert_eq!(list_window(19, 15, 10, 20), (10, 10, 20));
    // No room at all.
    assert_eq!(list_window(0, 0, 0, 3), (1, 1, 1));
}

#[test]
fn loop_timers_and_poll_interval() {
    let mut t = LoopTimers::new();
    let o = t.tick(1000);
    assert!(!o.expire_status && !o.check_sync);
    t.key_pressed();
    assert_eq!(t.status_ttl, 7500);
    let o = t.tick(2000);
    assert!(o.check_sync);
    assert_eq!(t.sync_timer, 0);
    assert_eq!(t.status_ttl, 5500);
    let o = t.tick(6000);
    assert!(o.expire_status);
    assert_eq!(t.status_ttl, 0);
    let o = t.tick(6000);
    assert!(!o.expire_status);
    assert_eq!(poll_interval_ms(true, true), 30);
    assert_eq!(poll_interval_ms(false, true), 500);
    assert_eq!(poll_interval_ms(false, false), 250);
}

#[test]
fn xscreensaver_program_names() {
    assert_eq!(saver_name("Beams"), "beams");
    assert_eq!(saver_name("Star Field 2!"), "starfield2");
    assert_eq!(saver_name("my-saver_x"), "my-saver_x");
}
