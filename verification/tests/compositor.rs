use yzendris::hyprland::{
    cursor_pos, detect_layout, device_layout, hyprctl_ok, instance_signature, is_plain_layout, keyboard_layout,
    layout_of_keyboards, pointer_locked, screen_size, HyprSession,
};

fn strings(v: &[&str]) -> Vec<String> {
    v.iter().map(|s| s.to_string()).collect()
}

#[test]
fn only_an_ok_reply_is_success() {
    assert!(hyprctl_ok(Some("ok")));
    assert!(hyprctl_ok(Some("  ok\n")));
    assert!(!hyprctl_ok(Some("keyword can't work with non-legacy parsers. Use eval.")));
    assert!(!hyprctl_ok(Some("")));
    assert!(!hyprctl_ok(None));
}

#[test]
fn cursor_position_replies() {
    assert_eq!(cursor_pos("1200, 340"), Some((1200, 340)));
    assert_eq!(cursor_pos("  -5,7\n"), Some((-5, 7)));
    assert_eq!(cursor_pos("+3, 4, 9"), Some((3, 4)));
    assert_eq!(cursor_pos("12"), None);
    assert_eq!(cursor_pos("a, 1"), None);
    assert_eq!(cursor_pos("1, "), None);
    assert_eq!(cursor_pos("99999999999, 1"), None);
}

#[test]
fn linux_pointer_is_never_locked_and_size_comes_from_the_monitor() {
    assert!(!pointer_locked());
    assert_eq!(screen_size(Some((0, 0, 2560, 1440))), Some((2560, 1440)));
    assert_eq!(screen_size(None), None);
}

#[test]
fn cursor_moves_try_classic_then_lua_until_one_works() {
    let mut s = HyprSession::new();
    let tries = s.move_cursor(10, -20);
    assert_eq!(tries.len(), 2);
    assert_eq!(tries[0], (false, strings(&["dispatch", "movecursor", "10", "-20"])));
    assert_eq!(tries[1], (true, strings(&["eval", "hl.dispatch(hl.dsp.cursor.move({ x = 10, y = -20 }))"])));
    s.note_reply(false, false);
    assert_eq!(s.lua_mode, None);
    s.note_reply(true, true);
    assert_eq!(s.lua_mode, Some(true));
    let tries = s.move_cursor(1, 2);
    assert_eq!(tries, vec![(true, strings(&["eval", "hl.dispatch(hl.dsp.cursor.move({ x = 1, y = 2 }))"]))]);
    // Once learned, the syntax sticks.
    s.note_reply(false, true);
    assert_eq!(s.lua_mode, Some(true));
    let classic = HyprSession { lua_mode: Some(false) };
    assert_eq!(classic.move_cursor(3, 4), vec![(false, strings(&["dispatch", "movecursor", "3", "4"]))]);
}

#[test]
fn keyboard_layouts_are_checked_before_use() {
    assert!(is_plain_layout("es"));
    assert!(is_plain_layout("es,us"));
    assert!(!is_plain_layout(""));
    assert!(!is_plain_layout("es'}) os.execute('x') --"));
    assert!(!is_plain_layout("US"));
    let s = HyprSession::new();
    let tries = s.apply_layout("yzendris-kbd", "es", None);
    assert_eq!(tries[0], (false, strings(&["-r", "keyword", "device:yzendris-kbd:kb_layout", "es"])));
    assert_eq!(
        tries[1],
        (true, strings(&["eval", "hl.device({ name = 'yzendris-kbd', kb_layout = 'es' })"]))
    );
    // A suspicious layout falls back to "us".
    let tries = s.apply_layout("kbd", "es'}) --", None);
    assert_eq!(tries[0].1[3], "us");
    // Nothing to do when the device already has the layout.
    assert!(s.apply_layout("kbd", "es", Some("es".into())).is_empty());
    assert_eq!(s.apply_layout("kbd", "es", Some("us".into())).len(), 2);
}

#[test]
fn applying_a_layout_needs_a_running_instance() {
    let s = HyprSession::new();
    assert_eq!(
        s.layout_plan(false, "kbd", "es", None),
        Err("could not determine HYPRLAND_INSTANCE_SIGNATURE".to_string())
    );
    assert_eq!(s.layout_plan(true, "kbd", "es", Some("es".into())), Ok(vec![]));
    let tries = s.layout_plan(true, "kbd", "es", None).unwrap();
    assert_eq!(tries, s.apply_layout("kbd", "es", None));
    assert_eq!(tries.len(), 2);
}

const DEVICES: &str = r#"{"mice": [], "keyboards": [
  {"name": "yzendris-virtual-kbd", "layout": "us"},
  {"name": "virtual-keyboard-1", "layout": "de"},
  {"name": "at-translated-set-2-keyboard", "layout": "es(nodeadkeys)"},
  {"name": "other", "layout": "fr"}
]}"#;

#[test]
fn the_physical_keyboard_layout_is_detected() {
    assert_eq!(detect_layout(Some(DEVICES)), "es");
    assert_eq!(detect_layout(None), "us");
    assert_eq!(detect_layout(Some("not json")), "us");
    assert_eq!(detect_layout(Some(r#"{"keyboards": [{"name": "virtual"}]}"#)), "us");
    assert_eq!(detect_layout(Some(r#"{"keyboards": [{"name": "kb"}]}"#)), "us");
    assert_eq!(detect_layout(Some(r#"{"keyboards": [{"layout": " (x)"}]}"#)), "us");
    assert_eq!(detect_layout(Some(r#"{"keyboards": [{"layout": "latam"}]}"#)), "latam");
    assert_eq!(detect_layout(Some(r#"{"keyboards": "none"}"#)), "us");
}

#[test]
fn layouts_from_listed_keyboards() {
    let kb = |n: Option<&str>, l: Option<&str>| (n.map(String::from), l.map(String::from));
    let kbs = vec![kb(Some("Yzendris-kbd"), Some("us")), kb(Some("usb kbd"), Some("de(neo)")), kb(None, Some("fr"))];
    // "Yzendris" in another case is not this program's device.
    assert_eq!(layout_of_keyboards(Some(kbs.clone())), "us");
    let kbs2 = vec![kb(Some("my-virtual-kbd"), Some("us")), kb(Some("usb kbd"), Some("de(neo)"))];
    assert_eq!(layout_of_keyboards(Some(kbs2.clone())), "de");
    assert_eq!(layout_of_keyboards(Some(vec![])), "us");
    assert_eq!(keyboard_layout(Some(kbs2.clone()), "usb kbd"), Some("de".into()));
    assert_eq!(keyboard_layout(Some(vec![kb(Some("a"), None), kb(Some("a"), Some("fr"))]), "a"), None);
    assert_eq!(keyboard_layout(None, "a"), None);
}

#[test]
fn a_device_layout_is_read_by_name() {
    assert_eq!(device_layout(Some(DEVICES), "other"), Some("fr".into()));
    assert_eq!(device_layout(Some(DEVICES), "at-translated-set-2-keyboard"), Some("es".into()));
    assert_eq!(device_layout(Some(DEVICES), "missing"), None);
    assert_eq!(device_layout(None, "other"), None);
}

#[test]
fn the_live_instance_is_preferred_then_the_newest() {
    let dirs = vec![(5u128, "old".to_string()), (9u128, "new".to_string()), (9u128, "tie".to_string())];
    assert_eq!(instance_signature(Some(("env".into(), true)), &dirs), Some("env".into()));
    assert_eq!(instance_signature(Some(("env".into(), false)), &dirs), Some("new".into()));
    assert_eq!(instance_signature(Some(("".into(), true)), &dirs), Some("new".into()));
    assert_eq!(instance_signature(None, &[]), None);
}
