use sand_ui::history::CommandHistory;
use sand_ui::text::{
    chars_of, join, owned, parse_u32, parse_unsigned_upto, parse_usize, push_decimal,
    replace_escaped_newlines, starts_with, str_eq, string_from_chars,
};

fn strings(items: &[&str]) -> Vec<String> {
    items.iter().map(|s| s.to_string()).collect()
}

#[test]
fn parse_usize_reads_plain_numbers() {
    assert_eq!(parse_usize("42"), Some(42));
    assert_eq!(parse_usize("0"), Some(0));
    assert_eq!(parse_usize("+7"), Some(7));
    assert_eq!(parse_usize("007"), Some(7));
}

#[test]
fn parse_usize_refuses_non_numbers() {
    assert_eq!(parse_usize(""), None);
    assert_eq!(parse_usize("+"), None);
    assert_eq!(parse_usize("-1"), None);
    assert_eq!(parse_usize("1.5"), None);
    assert_eq!(parse_usize(" 3"), None);
    assert_eq!(parse_usize("abc"), None);
}

#[test]
fn parse_u32_limits() {
    assert_eq!(parse_u32("4294967295"), Some(u32::MAX));
    assert_eq!(parse_u32("4294967296"), None);
    assert_eq!(parse_unsigned_upto("300", 255), None);
    assert_eq!(parse_unsigned_upto("255", 255), Some(255));
}

#[test]
fn parse_u32_agrees_with_std() {
    let samples = [
        "", "0", "1", "+1", "++1", "-0", "12a", "a12", "99999999999", "4294967295", "4294967296",
        "00000000000000000000042", " 1", "1 ", "٣", "+", "18446744073709551615",
    ];
    for s in samples {
        assert_eq!(parse_u32(s), s.parse::<u32>().ok(), "input {s:?}");
        assert_eq!(parse_usize(s), s.parse::<usize>().ok(), "input {s:?}");
    }
}

#[test]
fn push_decimal_writes_numerals() {
    let mut s = String::from("n=");
    push_decimal(&mut s, 0);
    assert_eq!(s, "n=0");
    let mut t = String::new();
    push_decimal(&mut t, 1234567890);
    assert_eq!(t, "1234567890");
    let mut u = String::new();
    push_decimal(&mut u, u128::MAX);
    assert_eq!(u, u128::MAX.to_string());
}

#[test]
fn join_and_string_helpers() {
    assert_eq!(join(&strings(&["a", "b", "c"]), ", "), "a, b, c");
    assert_eq!(join(&strings(&["one"]), " "), "one");
    assert_eq!(join(&[], " "), "");
    assert!(str_eq("héllo", "héllo"));
    assert!(!str_eq("abc", "abd"));
    assert!(starts_with("quick_actions.toggle_ui", "quick_actions."));
    assert!(!starts_with("cam", "camera."));
    assert_eq!(owned("x y"), "x y");
    let cs = chars_of("añb");
    assert_eq!(cs, vec!['a', 'ñ', 'b']);
    assert_eq!(string_from_chars(&cs, 1, 3), "ñb");
}

#[test]
fn escaped_newlines_become_line_breaks() {
    assert_eq!(replace_escaped_newlines(r"Hello\nWorld"), "Hello\nWorld");
    assert_eq!(replace_escaped_newlines(r"a\\nb"), "a\\\nb");
    assert_eq!(replace_escaped_newlines("end\\"), "end\\");
    assert_eq!(replace_escaped_newlines(r"\n\n"), "\n\n");
    assert_eq!(replace_escaped_newlines("plain"), "plain");
}

#[test]
fn history_load_skips_empty_lines() {
    let history = CommandHistory::load(strings(&["brush set size 3", "", "help"]));
    assert_eq!(history.file_text(), "brush set size 3\nhelp\n");
}

#[test]
fn history_push_skips_repeat_of_newest() {
    let mut history = CommandHistory::load(Vec::new());
    history.push("help".to_string());
    history.push("help".to_string());
    history.push("exit".to_string());
    history.push("help".to_string());
    assert_eq!(history.file_text(), "help\nexit\nhelp\n");
}

#[test]
fn history_up_recalls_newest_first_and_keeps_draft() {
    let mut history = CommandHistory::load(strings(&["first", "second"]));
    assert_eq!(history.navigate_up("typed"), Some("second".to_string()));
    assert_eq!(history.navigate_up("ignored"), Some("first".to_string()));
    assert_eq!(history.navigate_up("ignored"), None);
    assert_eq!(history.navigate_down(), "second");
    assert_eq!(history.navigate_down(), "typed");
    assert_eq!(history.navigate_down(), "typed");
}

#[test]
fn history_up_on_empty_history_is_none() {
    let mut history = CommandHistory::load(Vec::new());
    assert_eq!(history.navigate_up("draft"), None);
    assert_eq!(history.navigate_down(), "");
}

#[test]
fn history_push_stops_browsing() {
    let mut history = CommandHistory::load(strings(&["a", "b"]));
    assert_eq!(history.navigate_up(""), Some("b".to_string()));
    history.push("c".to_string());
    assert_eq!(history.navigate_up("new"), Some("c".to_string()));
}

#[test]
fn history_survives_save_and_reload() {
    let mut history = CommandHistory::load(Vec::new());
    for command in ["help", "brush set size 4", "scene spawn castle 1,2"] {
        history.push(command.to_string());
    }
    let text = history.file_text();
    let reloaded = CommandHistory::load(text.lines().map(|l| l.to_string()).collect());
    assert_eq!(reloaded.file_text(), text);
}
