use yzendris::config::{
    client_config_from, role_from_name, role_name, server_config_from, ClientConfig, ClientConfigPartial, ClientEntry,
    LayoutConfig, Role, ServerConfig, ServerConfigPartial, DEFAULT_PORT,
};
use yzendris::edge::Edge;
use yzendris::hook::{Layout, Rect};
use yzendris::monitors::{find, Monitor};
use yzendris::hook::{center_point, Portal};
use yzendris::resolve::{any_tls, build_layout, layout_between, layout_edge, layout_monitor_side, portals_of, resolve_clients};

fn mon(device: &str, left: i32, top: i32, right: i32, bottom: i32) -> Monitor {
    Monitor { device: device.into(), left, top, right, bottom, primary: left == 0 && top == 0 }
}

fn screen() -> Rect {
    Rect { left: 0, top: 0, right: 3840, bottom: 1080 }
}

fn two() -> Vec<Monitor> {
    vec![mon("DISPLAY2", 1920, 0, 3840, 1080), mon("DISPLAY1", 0, 0, 1920, 1080)]
}

fn empty_server() -> ServerConfigPartial {
    ServerConfigPartial {
        client_addr: None,
        port: None,
        edge: None,
        heartbeat_ms: None,
        clipboard: None,
        tls: None,
        layout: None,
        clients: None,
    }
}

#[test]
fn defaults_fill_missing_settings() {
    let s = ServerConfig::default();
    assert_eq!(s.client_addr, "192.168.1.42");
    assert_eq!(s.port, 7547);
    assert_eq!(s.edge, "right");
    assert_eq!(s.heartbeat_ms, 1000);
    assert!(s.clipboard && !s.tls && s.layout.is_none() && s.clients.is_empty());
    let c = ClientConfig::default();
    assert_eq!((c.port, c.bind_addr.as_str(), c.kb_layout.as_str()), (7547, "0.0.0.0", ""));
    assert_eq!(c.heartbeat_timeout_ms, 5000);
    assert!(c.clipboard && c.tls);

    let mut p = empty_server();
    p.port = Some(9000);
    p.edge = Some("left".into());
    let s = server_config_from(p);
    assert_eq!((s.port, s.edge.as_str(), s.client_addr.as_str()), (9000, "left", "192.168.1.42"));
    let c = client_config_from(ClientConfigPartial {
        port: None,
        bind_addr: Some("127.0.0.1".into()),
        kb_layout: None,
        heartbeat_timeout_ms: Some(100),
        clipboard: Some(false),
        tls: None,
    });
    assert_eq!((c.port, c.bind_addr.as_str(), c.heartbeat_timeout_ms, c.clipboard), (DEFAULT_PORT, "127.0.0.1", 100, false));
    assert!(c.tls, "a file without `tls` keeps TLS on");
}

#[test]
fn roles_roundtrip_through_their_names() {
    assert_eq!(role_name(Role::Host), "host");
    assert_eq!(role_name(Role::Client), "client");
    assert_eq!(role_from_name("host"), Some(Role::Host));
    assert_eq!(role_from_name("client"), Some(Role::Client));
    assert_eq!(role_from_name("Host"), None);
    assert_eq!(role_from_name(""), None);
}

#[test]
fn edges_parse_ignoring_case() {
    assert_eq!(Edge::from_str("RIGHT"), Some(Edge::Right));
    assert_eq!(Edge::from_str("Top"), Some(Edge::Top));
    assert_eq!(Edge::from_str("up"), None);
    assert_eq!(Edge::Right.side(), 0);
    assert_eq!(Edge::Left.side(), 1);
    assert_eq!(Edge::Bottom.side(), 2);
    assert_eq!(Edge::Top.side(), 3);
}

#[test]
fn monitors_are_found_by_any_spelling() {
    let ms = two();
    assert_eq!(find(&ms, "DISPLAY1").map(|m| m.left), Some(0));
    assert_eq!(find(&ms, "\\\\.\\DISPLAY2").map(|m| m.left), Some(1920));
    assert_eq!(find(&ms, "2").map(|m| m.left), Some(1920));
    assert_eq!(find(&ms, "display1").map(|m| m.left), Some(0));
    assert!(find(&ms, "3").is_none());
    assert_eq!(ms[0].width(), 1920);
    assert_eq!(ms[0].height(), 1080);
}

#[test]
fn single_layouts() {
    assert_eq!(layout_edge("left", screen()), Layout::Edge { side: 1, screen: screen() });
    assert_eq!(layout_edge("sideways", screen()), Layout::Edge { side: 0, screen: screen() });
    let ms = two();
    assert_eq!(
        layout_monitor_side("1", "top", &ms),
        Some(Layout::MonitorSide { rect: Rect { left: 0, top: 0, right: 1920, bottom: 1080 }, side: 3 })
    );
    assert_eq!(layout_monitor_side("9", "top", &ms), None);
    assert_eq!(layout_monitor_side("1", "nowhere", &ms), None);
    assert_eq!(
        layout_between("2", "1", &ms),
        Some(Layout::Between {
            left_mon: Rect { left: 0, top: 0, right: 1920, bottom: 1080 },
            right_mon: Rect { left: 1920, top: 0, right: 3840, bottom: 1080 },
            boundary_x: 1920,
        })
    );
    let stacked = vec![mon("DISPLAY1", 0, 0, 1920, 1080), mon("DISPLAY2", 0, -1080, 1920, 0)];
    assert_eq!(
        layout_between("DISPLAY1", "DISPLAY2", &stacked),
        Some(Layout::Stacked {
            top_mon: Rect { left: 0, top: -1080, right: 1920, bottom: 0 },
            bottom_mon: Rect { left: 0, top: 0, right: 1920, bottom: 1080 },
            boundary_y: 0,
        })
    );
    assert_eq!(layout_between("1", "2", &ms), layout_between("2", "1", &ms));
    assert_eq!(layout_between("DISPLAY2", "DISPLAY1", &stacked), layout_between("DISPLAY1", "DISPLAY2", &stacked));
    let apart = vec![mon("A", 0, 0, 10, 10), mon("B", 20, 20, 30, 30)];
    assert_eq!(layout_between("A", "B", &apart), None);
}

#[test]
fn legacy_layout_between_the_two_leftmost_monitors() {
    let ms = two();
    let mut cfg = ServerConfig::default();
    assert_eq!(build_layout(&cfg, &ms, screen()), Layout::Edge { side: 0, screen: screen() });
    cfg.layout = Some(LayoutConfig { mode: "between".into(), monitor_left: String::new(), monitor_right: String::new() });
    assert!(matches!(build_layout(&cfg, &ms, screen()), Layout::Between { boundary_x: 1920, .. }));
    cfg.layout = Some(LayoutConfig { mode: "between".into(), monitor_left: "1".into(), monitor_right: "7".into() });
    assert_eq!(build_layout(&cfg, &ms, screen()), Layout::Edge { side: 0, screen: screen() });
    cfg.layout = Some(LayoutConfig { mode: "edge".into(), monitor_left: String::new(), monitor_right: String::new() });
    assert_eq!(build_layout(&cfg, &ms, screen()), Layout::Edge { side: 0, screen: screen() });
}

#[test]
fn clients_resolve_to_portals() {
    let ms = two();
    let mut cfg = ServerConfig::default();
    let legacy = resolve_clients(&cfg, &ms, screen());
    assert_eq!(legacy.len(), 1);
    assert_eq!(legacy[0].id, 0);
    assert_eq!(legacy[0].name, "client");
    assert_eq!(legacy[0].addr, "192.168.1.42:7547");

    let mut a = ClientEntry::new();
    a.name = "laptop".into();
    a.addr = "10.0.0.2".into();
    a.port = 8000;
    a.tls = true;
    a.between = Some(vec!["DISPLAY1".into(), "DISPLAY2".into()]);
    let mut b = ClientEntry::new();
    b.addr = "10.0.0.3".into();
    b.monitor = Some("2".into());
    b.edge = Some("bottom".into());
    let mut c = ClientEntry::new();
    c.addr = "10.0.0.4".into();
    c.monitor = Some("9".into());
    c.edge = Some("left".into());
    cfg.clients = vec![a, b, c];
    let r = resolve_clients(&cfg, &ms, screen());
    assert_eq!(r.len(), 3);
    assert_eq!((r[0].id, r[0].name.as_str(), r[0].addr.as_str(), r[0].tls), (0, "laptop", "10.0.0.2:8000", true));
    assert!(matches!(r[0].layout, Layout::Between { boundary_x: 1920, .. }));
    assert_eq!(r[1].name, "client1");
    assert_eq!(
        r[1].layout,
        Layout::MonitorSide { rect: Rect { left: 1920, top: 0, right: 3840, bottom: 1080 }, side: 2 }
    );
    // An unknown monitor falls back to the desktop edge.
    assert_eq!(r[2].layout, Layout::Edge { side: 1, screen: screen() });
}

#[test]
fn portals_and_tls_follow_the_resolved_clients() {
    let ms = two();
    let mut cfg = ServerConfig::default();
    let mut a = ClientEntry::new();
    a.addr = "h".into();
    let mut b = ClientEntry::new();
    b.addr = "k".into();
    b.edge = Some("top".into());
    cfg.clients = vec![a, b];
    let r = resolve_clients(&cfg, &ms, screen());
    let ps = portals_of(&r);
    assert_eq!(ps.len(), 2);
    assert_eq!(ps[1], Portal { client: 1, layout: Layout::Edge { side: 3, screen: screen() } });
    assert!(!any_tls(&r));
    cfg.clients[1].tls = true;
    assert!(any_tls(&resolve_clients(&cfg, &ms, screen())));
    assert!(!any_tls(&[]));
    assert_eq!(center_point(screen()), (1920, 540));
    assert_eq!(center_point(Rect { left: -3, top: -3, right: 0, bottom: 0 }), (-1, -1));
}
