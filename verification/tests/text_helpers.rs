use yzendris::config::ClientEntry;
use yzendris::hook::{Layout, Rect};
use yzendris::monitors::{device_answers, wanted_name_of, Monitor};
use yzendris::resolve::resolve_entry;
use yzendris::text::{
    find_char, join_strings, parse_i32_str, push_decimal, push_i32, split_lines, starts_with_char, str_contains,
    str_eq, strip_all_prefix_str, trim_str,
};
use yzendris::tracker::{CursorTracker, MoveOutcome};

#[test]
fn trimming_and_prefixes() {
    assert_eq!(trim_str("  a b \t\n"), "a b");
    assert_eq!(trim_str("\u{3000}x\u{a0}"), "x");
    assert_eq!(trim_str("   "), "");
    assert_eq!(strip_all_prefix_str("ababc", "ab"), "c");
    assert_eq!(strip_all_prefix_str("abc", ""), "abc");
    assert!(starts_with_char("#x", '#'));
    assert!(!starts_with_char("", '#'));
}

#[test]
fn numbers_in_text() {
    let mut s = String::from("n=");
    push_decimal(&mut s, 0);
    push_decimal(&mut s, 18446744073709551615);
    assert_eq!(s, "n=018446744073709551615");
    let mut t = String::new();
    push_i32(&mut t, i32::MIN);
    assert_eq!(t, "-2147483648");
    assert_eq!(parse_i32_str("2147483647"), Some(i32::MAX));
    assert_eq!(parse_i32_str("-2147483648"), Some(i32::MIN));
    assert_eq!(parse_i32_str("2147483648"), None);
    assert_eq!(parse_i32_str("+7"), Some(7));
    assert_eq!(parse_i32_str("-"), None);
    assert_eq!(parse_i32_str(""), None);
    assert_eq!(parse_i32_str("1 "), None);
    assert_eq!(parse_i32_str("007"), Some(7));
}

#[test]
fn searching_text() {
    assert!(str_eq("añb", "añb"));
    assert!(!str_eq("a", "ab"));
    assert_eq!(find_char("a,b,c", ',', 0), 1);
    assert_eq!(find_char("a,b,c", ',', 2), 3);
    assert_eq!(find_char("abc", ',', 0), 3);
    assert!(str_contains("yzendris-virtual-kb", "virtual"));
    assert!(str_contains("abc", ""));
    assert!(!str_contains("ab", "abc"));
    assert!(!str_contains("Virtual", "virtual"));
}

#[test]
fn lines_split_and_join_like_std() {
    let text = "a\r\nb\n\nc";
    let ls = split_lines(text);
    assert_eq!(ls, text.lines().map(String::from).collect::<Vec<_>>());
    assert_eq!(split_lines("x\n"), vec!["x"]);
    assert!(split_lines("").is_empty());
    assert_eq!(join_strings(&ls, 0, ls.len(), "|"), "a|b||c");
    assert_eq!(join_strings(&ls, 1, 2, "|"), "b");
    assert_eq!(join_strings(&ls, 2, 2, "|"), "");
}

#[test]
fn monitor_names_are_compared_uppercased() {
    assert_eq!(wanted_name_of("  \\\\.\\display3 "), "DISPLAY3");
    assert!(device_answers("display3", "DISPLAY3"));
    assert!(device_answers("DISPLAY3", "3"));
    assert!(!device_answers("DISPLAY31", "3"));
}

#[test]
fn one_client_entry_resolves() {
    let mons = vec![Monitor { device: "DISPLAY1".into(), left: 0, top: 0, right: 800, bottom: 600, primary: true }];
    let screen = Rect { left: 0, top: 0, right: 800, bottom: 600 };
    let mut c = ClientEntry::new();
    c.addr = "10.1.1.1".into();
    c.monitor = Some("1".into());
    c.edge = Some("LEFT".into());
    let r = resolve_entry(4, &c, &mons, screen);
    assert_eq!(r.name, "client4");
    assert_eq!(r.addr, "10.1.1.1:7547");
    assert_eq!(r.layout, Layout::MonitorSide { rect: screen, side: 1 });
}

#[test]
fn a_refreshed_rectangle_moves_the_edges() {
    let mut t = CursorTracker::new(0);
    t.on_capture_start(None, Some((50, 50)), 0);
    t.refresh_rect(Some((0, 0, 100, 100)));
    t.refresh_rect(None);
    assert_eq!(t.on_mouse_move(80, 0, None, 1), MoveOutcome::EdgePushed { edge: 0, num: 50, den: 99 });
}
