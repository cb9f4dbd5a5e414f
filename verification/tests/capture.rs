use yzendris::hook::{
    return_span_for, HookAction, HookState, KeyInput, Layout, MouseInput, Portal, Rect, ReturnSpan, RETURN_MARGIN,
    WM_LBUTTONDOWN, WM_MOUSEMOVE, WM_MOUSEWHEEL, WM_XBUTTONUP,
};
use yzendris::protocol::{Event, EDGE_BOTTOM, EDGE_LEFT, EDGE_RIGHT, EDGE_TOP};

fn screen() -> Rect {
    Rect { left: 0, top: 0, right: 1920, bottom: 1080 }
}

fn mv(x: i32, y: i32) -> MouseInput {
    MouseInput { msg: WM_MOUSEMOVE, x, y, mouse_data: 0, flags: 0, resetting: false }
}

fn key(vk: u32, scancode: u32, up: bool) -> KeyInput {
    KeyInput { vk, scancode, flags: if up { 0x80 } else { 0 } }
}

/// A host with one client past the right edge of a 1920x1080 desktop.
fn right_edge_host(connected: bool) -> HookState {
    let mut h = HookState::new();
    h.configure_portals(vec![Portal { client: 0, layout: Layout::Edge { side: 0, screen: screen() } }]);
    h.set_client_connected(0, connected);
    h
}

#[test]
fn rect_size_wraps() {
    let r = screen();
    assert_eq!(r.width(), 1920);
    assert_eq!(r.height(), 1080);
    let odd = Rect { left: i32::MIN, top: 0, right: i32::MAX, bottom: 0 };
    assert_eq!(odd.width(), -1);
}

#[test]
fn reaching_the_edge_enters_a_connected_client() {
    let mut h = right_edge_host(true);
    let out = h.on_mouse(mv(1000, 500));
    assert!(!out.suppress);
    assert!(out.actions.is_empty());
    let out = h.on_mouse(mv(1919, 300));
    assert!(out.suppress);
    assert!(h.capturing());
    assert_eq!(h.active_client(), Some(0));
    assert_eq!(out.actions.len(), 4);
    assert!(matches!(out.actions[0], HookAction::ShowCursor { show: false }));
    assert!(matches!(out.actions[1], HookAction::SetCursor { x: 960, y: 540 }));
    assert!(matches!(out.actions[2], HookAction::Send { client: 0, event: Event::CaptureStart }));
    assert!(matches!(
        out.actions[3],
        HookAction::EnterAt { client: 0, edge: EDGE_LEFT, along: 300, lo: 0, hi: 1080 }
    ));
}

#[test]
fn a_disconnected_client_is_never_entered() {
    let mut h = right_edge_host(false);
    let out = h.on_mouse(mv(1919, 300));
    assert!(!out.suppress);
    assert!(!h.capturing());
    assert!(out.actions.is_empty());
}

#[test]
fn a_client_marked_disconnected_is_not_entered_again() {
    let mut h = right_edge_host(true);
    h.set_client_connected(0, false);
    for (x, y) in [(1000, 500), (1919, 0), (1919, 1079), (2500, 300)] {
        let out = h.on_mouse(mv(x, y));
        assert!(!out.suppress);
        assert!(out.actions.is_empty());
        assert!(!h.capturing());
    }
}

#[test]
fn captured_moves_are_deltas_from_the_park_point() {
    let mut h = right_edge_host(true);
    h.set_capture_center(100, 200);
    h.on_mouse(mv(1919, 300));
    let out = h.on_mouse(mv(110, 195));
    assert!(out.suppress);
    assert_eq!(out.actions.len(), 2);
    assert!(matches!(out.actions[0], HookAction::Send { client: 0, event: Event::MouseMove { dx: 10, dy: -5 } }));
    assert!(matches!(out.actions[1], HookAction::SetCursor { x: 100, y: 200 }));
    // The move the park itself causes is not forwarded.
    let out = h.on_mouse(MouseInput { msg: WM_MOUSEMOVE, x: 110, y: 195, mouse_data: 0, flags: 0, resetting: true });
    assert!(out.suppress);
    assert!(out.actions.is_empty());
    // Neither is a move of zero.
    let out = h.on_mouse(mv(100, 200));
    assert!(out.actions.is_empty());
}

#[test]
fn captured_buttons_and_wheel_are_forwarded() {
    let mut h = right_edge_host(true);
    h.on_mouse(mv(1919, 300));
    let out = h.on_mouse(MouseInput { msg: WM_LBUTTONDOWN, x: 0, y: 0, mouse_data: 0, flags: 0, resetting: false });
    assert!(matches!(out.actions[0], HookAction::Send { event: Event::MouseButton { btn: 0x110, pressed: true }, .. }));
    let out = h.on_mouse(MouseInput { msg: WM_XBUTTONUP, x: 0, y: 0, mouse_data: 2 << 16, flags: 0, resetting: false });
    assert!(matches!(out.actions[0], HookAction::Send { event: Event::MouseButton { btn: 0x114, pressed: false }, .. }));
    let out = h.on_mouse(MouseInput { msg: WM_MOUSEWHEEL, x: 0, y: 0, mouse_data: 240 << 16, flags: 0, resetting: false });
    assert!(matches!(out.actions[0], HookAction::Send { event: Event::Scroll { dx: 0, dy: 2 }, .. }));
    // Wheel down: the high word is -120.
    let down = ((-120i32 as u32) & 0xffff) << 16;
    let out = h.on_mouse(MouseInput { msg: WM_MOUSEWHEEL, x: 0, y: 0, mouse_data: down, flags: 0, resetting: false });
    assert!(matches!(out.actions[0], HookAction::Send { event: Event::Scroll { dx: 0, dy: -1 }, .. }));
    // Less than a notch scrolls nothing.
    let out = h.on_mouse(MouseInput { msg: WM_MOUSEWHEEL, x: 0, y: 0, mouse_data: 60 << 16, flags: 0, resetting: false });
    assert!(out.suppress);
    assert!(out.actions.is_empty());
}

#[test]
fn injected_input_passes_through() {
    let mut h = right_edge_host(true);
    h.on_mouse(mv(1919, 300));
    let out = h.on_mouse(MouseInput { msg: WM_MOUSEMOVE, x: 5, y: 5, mouse_data: 0, flags: 1, resetting: false });
    assert!(!out.suppress);
    assert!(out.actions.is_empty());
    let out = h.on_key(KeyInput { vk: 0x41, scancode: 30, flags: 0x10 });
    assert!(!out.suppress);
    assert!(out.actions.is_empty());
}

#[test]
fn keys_are_forwarded_once_while_held() {
    let mut h = right_edge_host(true);
    let out = h.on_key(key(0x41, 30, false));
    assert!(!out.suppress, "outside capture keys pass through");
    h.on_mouse(mv(1919, 300));
    let out = h.on_key(key(0x41, 30, false));
    assert!(out.suppress);
    assert!(matches!(out.actions[0], HookAction::Send { client: 0, event: Event::KeyPress { keycode: 30 } }));
    let out = h.on_key(key(0x41, 30, false));
    assert!(out.suppress);
    assert!(out.actions.is_empty(), "auto-repeat of a held key is dropped");
    let out = h.on_key(key(0x41, 30, true));
    assert!(matches!(out.actions[0], HookAction::Send { event: Event::KeyRelease { keycode: 30 }, .. }));
    // A key without an evdev code is swallowed and not sent.
    let out = h.on_key(key(0x00, 0x7F, false));
    assert!(out.suppress);
    assert!(out.actions.is_empty());
}

#[test]
fn release_combo_ends_capture_and_releases_held_keys() {
    let mut h = right_edge_host(true);
    h.on_mouse(mv(1919, 300));
    h.on_key(key(0x41, 30, false));
    h.on_key(key(0xA2, 0x1D, false));
    h.on_key(key(0xA0, 0x2A, false));
    let out = h.on_key(key(0xA4, 0x38, false));
    assert!(!out.suppress);
    assert!(!h.capturing());
    assert_eq!(out.actions.len(), 4);
    assert!(matches!(out.actions[0], HookAction::ShowCursor { show: true }));
    assert!(matches!(out.actions[1], HookAction::SetCursor { x: 960, y: 540 }));
    match &out.actions[2] {
        HookAction::Send { client: 0, event: Event::SyncKeys { keycodes_down } } => {
            assert_eq!(keycodes_down, &vec![29, 30, 42]);
        }
        other => panic!("unexpected {other:?}"),
    }
    assert!(matches!(out.actions[3], HookAction::Send { client: 0, event: Event::CaptureEnd }));
}

#[test]
fn release_combo_returns_to_the_monitor_it_came_from() {
    let mut h = HookState::new();
    let left = Rect { left: 0, top: 0, right: 1920, bottom: 1080 };
    let right = Rect { left: 1920, top: 0, right: 3840, bottom: 1080 };
    h.configure_portals(vec![Portal {
        client: 3,
        layout: Layout::Between { left_mon: left, right_mon: right, boundary_x: 1920 },
    }]);
    h.set_client_connected(3, true);
    h.on_mouse(mv(1900, 500));
    let out = h.on_mouse(mv(1925, 500));
    assert!(matches!(out.actions[3], HookAction::EnterAt { client: 3, edge: EDGE_LEFT, along: 500, lo: 0, hi: 1080 }));
    // A modifier pressed and released is no longer held.
    h.on_key(key(0xA2, 0x1D, false));
    h.on_key(key(0xA2, 0x1D, true));
    h.on_key(key(0xA2, 0x1D, false));
    h.on_key(key(0xA0, 0x2A, false));
    let out = h.on_key(key(0xA4, 0x38, false));
    // Back to the centre of the left monitor, where the cursor came from.
    assert!(matches!(out.actions[1], HookAction::SetCursor { x: 960, y: 540 }));
    match &out.actions[2] {
        HookAction::Send { event: Event::SyncKeys { keycodes_down }, .. } => assert_eq!(keycodes_down, &vec![29, 42]),
        other => panic!("unexpected {other:?}"),
    }
}

#[test]
fn crossing_a_gap_backwards_enters_through_the_right_edge() {
    let mut h = HookState::new();
    let left = Rect { left: 0, top: 0, right: 1920, bottom: 1080 };
    let right = Rect { left: 1920, top: 0, right: 3840, bottom: 1080 };
    h.configure_layout(Layout::Between { left_mon: left, right_mon: right, boundary_x: 1920 });
    h.set_client_connected(0, true);
    h.on_mouse(mv(2000, 100));
    let out = h.on_mouse(mv(1910, 100));
    assert!(matches!(out.actions[3], HookAction::EnterAt { edge: EDGE_RIGHT, along: 100, .. }));
    // Control comes back on the right monitor, clear of the boundary.
    let span = h.return_span(0, EDGE_RIGHT).unwrap();
    assert_eq!(span, ReturnSpan { fixed_is_x: true, fixed: 1920 + RETURN_MARGIN, lo: 0, hi: 1080 });
    assert_eq!(h.return_span(0, EDGE_TOP), None);
    assert_eq!(h.return_span(7, EDGE_RIGHT), None);
}

#[test]
fn moves_before_any_placement_are_not_remembered() {
    let mut h = HookState::new();
    let out = h.on_mouse(mv(2000, 100));
    assert!(!out.suppress);
    assert!(out.actions.is_empty());
    let left = Rect { left: 0, top: 0, right: 1920, bottom: 1080 };
    let right = Rect { left: 1920, top: 0, right: 3840, bottom: 1080 };
    h.configure_layout(Layout::Between { left_mon: left, right_mon: right, boundary_x: 1920 });
    h.set_client_connected(0, true);
    // No previous position is known yet, so this first crossing is not one.
    let out = h.on_mouse(mv(1910, 100));
    assert!(!out.suppress);
    assert!(!h.capturing());
    // From here on the position is tracked.
    let out = h.on_mouse(mv(1930, 100));
    assert!(out.suppress);
    assert!(matches!(out.actions[3], HookAction::EnterAt { edge: EDGE_LEFT, along: 100, .. }));
}

#[test]
fn stacked_gap_enters_through_top_or_bottom() {
    let top = Rect { left: 0, top: -1080, right: 1920, bottom: 0 };
    let bottom = Rect { left: 0, top: 0, right: 1920, bottom: 1080 };
    let mut h = HookState::new();
    h.configure_layout(Layout::Stacked { top_mon: top, bottom_mon: bottom, boundary_y: 0 });
    h.set_client_connected(0, true);
    h.on_mouse(mv(800, -10));
    let out = h.on_mouse(mv(800, 5));
    assert!(matches!(out.actions[3], HookAction::EnterAt { client: 0, edge: EDGE_TOP, along: 800, lo: 0, hi: 1920 }));
}

#[test]
fn only_the_first_configuration_counts() {
    let mut h = HookState::new();
    h.configure_layout(Layout::Edge { side: 1, screen: screen() });
    h.configure_layout(Layout::Edge { side: 0, screen: screen() });
    h.set_client_connected(0, true);
    let out = h.on_mouse(mv(1919, 10));
    assert!(out.actions.is_empty());
    let out = h.on_mouse(mv(0, 10));
    assert!(matches!(out.actions[3], HookAction::EnterAt { edge: EDGE_RIGHT, .. }));
}

#[test]
fn a_dropped_connection_releases_capture() {
    let mut h = right_edge_host(true);
    h.on_mouse(mv(1919, 300));
    assert!(h.release_capture_on_disconnect(5).is_empty());
    assert!(h.capturing());
    let acts = h.release_capture_on_disconnect(0);
    assert!(!h.capturing());
    assert_eq!(acts.len(), 2);
    assert!(matches!(acts[0], HookAction::ShowCursor { show: true }));
    assert!(matches!(acts[1], HookAction::SetCursor { x: 960, y: 540 }));
}

#[test]
fn control_returns_at_the_reported_point() {
    let mut h = right_edge_host(true);
    h.on_mouse(mv(1919, 300));
    h.on_key(key(0x41, 30, false));
    let span = h.return_span(0, EDGE_LEFT).unwrap();
    assert_eq!(span, ReturnSpan { fixed_is_x: true, fixed: 1919 - RETURN_MARGIN, lo: 0, hi: 1080 });
    let acts = h.release_capture_to(span.fixed, 540);
    assert!(!h.capturing());
    assert_eq!(acts.len(), 4);
    assert!(matches!(&acts[0], HookAction::Send { event: Event::SyncKeys { .. }, .. }));
    assert!(matches!(acts[1], HookAction::Send { event: Event::CaptureEnd, .. }));
    assert!(matches!(acts[2], HookAction::ShowCursor { show: true }));
    assert!(matches!(acts[3], HookAction::SetCursor { x: 1903, y: 540 }));
    // Resting at the return point does not capture again.
    let out = h.on_mouse(mv(1903, 540));
    assert!(out.actions.is_empty());
}

#[test]
fn return_spans_face_the_host() {
    let s = screen();
    assert_eq!(
        return_span_for(Layout::Edge { side: 3, screen: s }, EDGE_BOTTOM),
        Some(ReturnSpan { fixed_is_x: false, fixed: RETURN_MARGIN, lo: 0, hi: 1920 })
    );
    assert_eq!(return_span_for(Layout::Edge { side: 3, screen: s }, EDGE_TOP), None);
    assert_eq!(
        return_span_for(Layout::MonitorSide { rect: s, side: 2 }, EDGE_TOP),
        Some(ReturnSpan { fixed_is_x: false, fixed: 1079 - RETURN_MARGIN, lo: 0, hi: 1920 })
    );
}
