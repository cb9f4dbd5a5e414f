use yzendris::arrangement::{
    adjacent_pairs, client_placement, edge_monitor, free_sides, monitor_drop_positions, monitor_number, pair_is_stacked,
    pair_kind, placement_eq, placement_label, placement_options, set_placement, shorten, sort_by_left, DropSide,
    MonitorInfo,
    Placement,
};
use yzendris::config::ClientEntry;

fn info(device: &str, left: i32, top: i32, right: i32, bottom: i32, primary: bool) -> MonitorInfo {
    MonitorInfo { device: device.into(), left, top, right, bottom, primary }
}

/// Two 1920x1080 monitors side by side, the primary on the left.
fn pair() -> Vec<MonitorInfo> {
    vec![info("DISPLAY1", 0, 0, 1920, 1080, true), info("DISPLAY2", 1920, 0, 3840, 1080, false)]
}

fn same(p: &Placement, gap: bool, a: &str, b: &str) -> bool {
    match p {
        Placement::Gap(x, y) => gap && x == a && y == b,
        Placement::Side(x, y) => !gap && x == a && y == b,
    }
}

#[test]
fn monitor_sizes_and_numbers() {
    let m = info("DISPLAY12", 10, 20, 110, 70, false);
    assert_eq!(m.width(), 100);
    assert_eq!(m.height(), 50);
    assert_eq!(m.number(), "12");
    assert_eq!(info("none", 0, 0, 0, 0, false).number(), "");
}

#[test]
fn free_sides_of_a_pair() {
    let ms = pair();
    // right, left, bottom, top
    assert_eq!(free_sides(&ms, 0), [false, true, true, true]);
    assert_eq!(free_sides(&ms, 1), [true, false, true, true]);
}

#[test]
fn adjacency_and_stacking() {
    let ms = pair();
    assert_eq!(adjacent_pairs(&ms), vec![(0, 1, false)]);
    assert!(!pair_is_stacked(&ms[0], &ms[1]));
    let stacked = vec![info("DISPLAY1", 0, 0, 1920, 1080, true), info("DISPLAY2", 0, 1080, 1920, 2160, false)];
    assert_eq!(adjacent_pairs(&stacked), vec![(0, 1, true)]);
    assert!(pair_is_stacked(&stacked[0], &stacked[1]));
    let apart = vec![info("A", 0, 0, 100, 100, true), info("B", 500, 0, 600, 100, false)];
    assert!(adjacent_pairs(&apart).is_empty());
    // Within two pixels still counts as touching.
    let close = vec![info("A", 0, 0, 100, 100, true), info("B", 102, 0, 200, 100, false)];
    assert_eq!(adjacent_pairs(&close), vec![(0, 1, false)]);
}

#[test]
fn every_gap_then_every_free_side_is_offered() {
    let ms = pair();
    let opts = placement_options(&ms);
    assert_eq!(opts.len(), 7);
    assert!(same(&opts[0], true, "DISPLAY1", "DISPLAY2"));
    assert!(same(&opts[1], false, "DISPLAY1", "left"));
    assert!(same(&opts[2], false, "DISPLAY1", "bottom"));
    assert!(same(&opts[3], false, "DISPLAY1", "top"));
    assert!(same(&opts[4], false, "DISPLAY2", "right"));
    assert!(same(&opts[5], false, "DISPLAY2", "bottom"));
    assert!(same(&opts[6], false, "DISPLAY2", "top"));
}

#[test]
fn whole_desktop_edges_belong_to_a_monitor() {
    let ms = pair();
    assert_eq!(edge_monitor(&ms, "right"), Some(1));
    assert_eq!(edge_monitor(&ms, "left"), Some(0));
    assert_eq!(edge_monitor(&ms, "top"), Some(0));
    assert_eq!(edge_monitor(&ms, "bottom"), Some(1));
    assert_eq!(edge_monitor(&[], "right"), None);
}

#[test]
fn a_client_is_shown_where_it_is_configured() {
    let ms = pair();
    let mut c = ClientEntry::new();
    assert!(same(&client_placement(&c, &ms), false, "DISPLAY2", "right"));
    c.edge = Some("left".into());
    assert!(same(&client_placement(&c, &ms), false, "DISPLAY1", "left"));
    set_placement(&mut c, &Placement::Gap("DISPLAY1".into(), "DISPLAY2".into()));
    assert!(c.edge.is_none() && c.monitor.is_none());
    assert!(same(&client_placement(&c, &ms), true, "DISPLAY1", "DISPLAY2"));
    set_placement(&mut c, &Placement::Side("DISPLAY2".into(), "top".into()));
    assert!(c.between.is_none());
    assert!(same(&client_placement(&c, &ms), false, "DISPLAY2", "top"));
    // A gap needs exactly two monitors.
    c.between = Some(vec!["DISPLAY1".into()]);
    assert!(same(&client_placement(&c, &ms), false, "DISPLAY2", "top"));
    assert!(same(&client_placement(&ClientEntry::new(), &[]), false, "", "right"));
}

#[test]
fn labels_name_monitors_by_number() {
    let ms = pair();
    assert_eq!(monitor_number(&ms, "DISPLAY2"), "2");
    assert_eq!(monitor_number(&ms, "\\\\.\\display1"), "1");
    assert_eq!(monitor_number(&ms, " 1 "), "1");
    assert_eq!(monitor_number(&ms, "HDMI"), "HDMI");
    assert_eq!(pair_kind(&ms, "DISPLAY1", "2"), " (lado a lado)");
    assert_eq!(pair_kind(&ms, "DISPLAY1", "9"), "");
    assert_eq!(
        placement_label(&ms, &Placement::Gap("DISPLAY1".into(), "DISPLAY2".into())),
        "Entre pantalla 1 y 2 (lado a lado)"
    );
    assert_eq!(placement_label(&ms, &Placement::Side("DISPLAY2".into(), "left".into())), "A la izquierda de la pantalla 2");
    assert_eq!(placement_label(&ms, &Placement::Side("DISPLAY1".into(), "top".into())), "Arriba de la pantalla 1");
    assert_eq!(placement_label(&ms, &Placement::Side("DISPLAY1".into(), "bottom".into())), "Abajo de la pantalla 1");
    assert_eq!(placement_label(&ms, &Placement::Side("X".into(), "weird".into())), "A la derecha de la pantalla X");
    let stacked = vec![info("DISPLAY1", 0, 0, 1920, 1080, true), info("DISPLAY2", 0, 1080, 1920, 2160, false)];
    assert_eq!(pair_kind(&stacked, "1", "2"), " (apiladas)");
}

#[test]
fn placements_compare_by_monitor_not_spelling() {
    let a = Placement::Gap("DISPLAY1".into(), "display2".into());
    let b = Placement::Gap("\\\\.\\DISPLAY2".into(), " DISPLAY1".into());
    assert!(placement_eq(&a, &b));
    assert!(placement_eq(&b, &a));
    let s1 = Placement::Side("display1".into(), "left".into());
    let s2 = Placement::Side("DISPLAY1".into(), "left".into());
    let s3 = Placement::Side("DISPLAY1".into(), "Left".into());
    assert!(placement_eq(&s1, &s2));
    assert!(!placement_eq(&s2, &s3));
    assert!(!placement_eq(&a, &s1));
}

#[test]
fn long_names_are_shortened() {
    assert_eq!(shorten("abc", 3), "abc");
    assert_eq!(shorten("abcdef", 3), "abc…");
    assert_eq!(shorten("ñandú", 2), "ña…");
    assert_eq!(shorten("", 0), "");
}

#[test]
fn dropping_a_monitor_snaps_it_and_keeps_the_primary_at_the_origin() {
    let ms = pair();
    // Drop DISPLAY2 below DISPLAY1.
    let pos = monitor_drop_positions(&ms, 1, 0, DropSide::Below);
    assert_eq!(pos, vec![("DISPLAY1".to_string(), 0, 0), ("DISPLAY2".to_string(), 0, 1080)]);
    // Drop the primary to the left of DISPLAY2: everything shifts so it stays at (0, 0).
    let pos = monitor_drop_positions(&ms, 0, 1, DropSide::Left);
    assert_eq!(pos, vec![("DISPLAY1".to_string(), 0, 0), ("DISPLAY2".to_string(), 1920, 0)]);
    let pos = monitor_drop_positions(&ms, 0, 1, DropSide::Below);
    assert_eq!(pos, vec![("DISPLAY1".to_string(), 0, 0), ("DISPLAY2".to_string(), 0, -1080)]);
    let pos = monitor_drop_positions(&ms, 1, 0, DropSide::Above);
    assert_eq!(pos[1], ("DISPLAY2".to_string(), 0, -1080));
    let pos = monitor_drop_positions(&ms, 1, 0, DropSide::Right);
    assert_eq!(pos[1], ("DISPLAY2".to_string(), 1920, 0));
    assert!(monitor_drop_positions(&ms, 1, 1, DropSide::Right).is_empty());
    // Without a primary, the first monitor anchors.
    let np = vec![info("A", 100, 100, 200, 200, false), info("B", 200, 100, 300, 200, false)];
    let pos = monitor_drop_positions(&np, 1, 0, DropSide::Left);
    assert_eq!(pos, vec![("A".to_string(), 0, 0), ("B".to_string(), -100, 0)]);
}

#[test]
fn monitors_are_listed_left_to_right_stably() {
    let ms = vec![
        info("C", 100, 0, 200, 10, false),
        info("A", -50, 0, 0, 10, false),
        info("B", 100, 20, 200, 30, true),
        info("D", 0, 0, 100, 10, false),
    ];
    let sorted: Vec<String> = sort_by_left(ms).into_iter().map(|m| m.device).collect();
    assert_eq!(sorted, vec!["A", "D", "C", "B"]);
    assert!(sort_by_left(Vec::new()).is_empty());
}

#[test]
fn system_device_names_are_cleaned() {
    assert_eq!(yzendris::monitors::device_name_of("\\\\.\\DISPLAY1\0\0\0"), "DISPLAY1");
    assert_eq!(yzendris::monitors::device_name_of("DISPLAY2"), "DISPLAY2");
    assert_eq!(yzendris::monitors::device_name_of("\0"), "");
}
