use yzendris::inject::{
    evdev_button, kernel_events, release_all_events, InputRecord, Injector, KernelEvent, MouseFlag, EV_KEY, EV_REL,
    EV_SYN, REL_HWHEEL, REL_HWHEEL_HI_RES, REL_WHEEL, REL_WHEEL_HI_RES, REL_X, REL_Y, XBUTTON2,
};
use yzendris::protocol::{Event, EDGE_BOTTOM, EDGE_LEFT, EDGE_RIGHT, EDGE_TOP};
use yzendris::tracker::{CursorTracker, MoveOutcome, EDGE_COOLDOWN_MS, OVERSHOOT_THRESHOLD};

fn syn() -> KernelEvent {
    KernelEvent { kind: EV_SYN, code: 0, value: 0 }
}

#[test]
fn key_and_motion_become_kernel_events() {
    assert_eq!(
        kernel_events(&Event::KeyPress { keycode: 30 }),
        Some(vec![KernelEvent { kind: EV_KEY, code: 30, value: 1 }, syn()])
    );
    assert_eq!(
        kernel_events(&Event::MouseMove { dx: 3, dy: -4 }),
        Some(vec![
            KernelEvent { kind: EV_REL, code: REL_X, value: 3 },
            KernelEvent { kind: EV_REL, code: REL_Y, value: -4 },
            syn()
        ])
    );
    assert_eq!(kernel_events(&Event::MouseMove { dx: 0, dy: 0 }), Some(vec![]));
    assert_eq!(
        kernel_events(&Event::MouseMove { dx: 0, dy: 2 }),
        Some(vec![KernelEvent { kind: EV_REL, code: REL_Y, value: 2 }, syn()])
    );
}

#[test]
fn scroll_sends_hi_res_and_notches() {
    assert_eq!(
        kernel_events(&Event::Scroll { dx: -1, dy: 2 }),
        Some(vec![
            KernelEvent { kind: EV_REL, code: REL_WHEEL_HI_RES, value: 240 },
            KernelEvent { kind: EV_REL, code: REL_WHEEL, value: 2 },
            KernelEvent { kind: EV_REL, code: REL_HWHEEL_HI_RES, value: -120 },
            KernelEvent { kind: EV_REL, code: REL_HWHEEL, value: -1 },
            syn()
        ])
    );
}

#[test]
fn control_events_are_not_injected() {
    assert_eq!(kernel_events(&Event::Heartbeat), None);
    assert_eq!(kernel_events(&Event::CaptureStart), None);
    assert_eq!(kernel_events(&Event::ClipboardText { text: "x".into() }), None);
    assert_eq!(
        kernel_events(&Event::SyncKeys { keycodes_down: vec![29, 30] }),
        Some(vec![
            KernelEvent { kind: EV_KEY, code: 29, value: 0 },
            KernelEvent { kind: EV_KEY, code: 30, value: 0 },
            syn()
        ])
    );
}

#[test]
fn release_all_lets_go_of_every_key_and_button() {
    let evs = release_all_events();
    assert_eq!(*evs.last().unwrap(), syn());
    assert!(evs.contains(&KernelEvent { kind: EV_KEY, code: 30, value: 0 }));
    assert!(evs.contains(&KernelEvent { kind: EV_KEY, code: 0x110, value: 0 }));
    assert!(evs.iter().all(|e| e.kind != EV_KEY || e.value == 0));
}

#[test]
fn windows_buttons_map_to_mouse_flags() {
    assert_eq!(evdev_button(0x110), Some((MouseFlag::LeftDown, MouseFlag::LeftUp, 0)));
    assert_eq!(evdev_button(0x114), Some((MouseFlag::XDown, MouseFlag::XUp, XBUTTON2)));
    assert_eq!(evdev_button(0x115), None);
}

#[test]
fn windows_injector_tracks_and_releases_held_input() {
    let mut inj = Injector::new();
    let (ok, recs) = inj.inject(&Event::KeyPress { keycode: 97 });
    assert!(ok);
    assert_eq!(recs, vec![InputRecord::Key { scancode: 0x1D, extended: true, up: false }]);
    let (ok, recs) = inj.inject(&Event::MouseButton { btn: 0x111, pressed: true });
    assert!(ok);
    assert_eq!(recs, vec![InputRecord::Mouse { dx: 0, dy: 0, data: 0, flag: MouseFlag::RightDown }]);
    let (ok, recs) = inj.inject(&Event::Heartbeat);
    assert!(!ok);
    assert!(recs.is_empty());
    let released = inj.release_all();
    assert_eq!(released.len(), 2);
    assert!(released.contains(&InputRecord::Key { scancode: 0x1D, extended: true, up: true }));
    assert!(released.contains(&InputRecord::Mouse { dx: 0, dy: 0, data: 0, flag: MouseFlag::RightUp }));
    assert!(inj.release_all().is_empty());
}

#[test]
fn windows_injector_moves_and_scrolls() {
    let mut inj = Injector::new();
    let (_, recs) = inj.inject(&Event::MouseMove { dx: 5, dy: 6 });
    assert_eq!(recs, vec![InputRecord::Mouse { dx: 5, dy: 6, data: 0, flag: MouseFlag::Move }]);
    let (_, recs) = inj.inject(&Event::Scroll { dx: 0, dy: -2 });
    assert_eq!(recs, vec![InputRecord::Mouse { dx: 0, dy: 0, data: (-240i32) as u32, flag: MouseFlag::Wheel }]);
}

fn tracking(now: u64) -> CursorTracker {
    let mut t = CursorTracker::new(now);
    t.on_capture_start(Some((0, 0, 1920, 1080)), Some((1900, 500)), now);
    t
}

#[test]
fn tracker_idles_outside_capture() {
    let mut t = CursorTracker::new(0);
    assert!(!t.is_active());
    assert_eq!(t.on_mouse_move(10, 10, None, 5), MoveOutcome::Idle);
}

#[test]
fn pushing_past_an_edge_reports_it_once_past_the_threshold() {
    let mut t = tracking(0);
    assert!(t.is_active());
    assert_eq!(t.on_mouse_move(10, 0, None, 1), MoveOutcome::Inside);
    assert_eq!(t.on_mouse_move(20, 0, None, 2), MoveOutcome::Pushing);
    match t.on_mouse_move(OVERSHOOT_THRESHOLD as i32, 0, None, 3) {
        MoveOutcome::EdgePushed { edge, num, den } => {
            assert_eq!(edge, EDGE_RIGHT);
            assert_eq!((num, den), (500, 1079));
        }
        other => panic!("unexpected {other:?}"),
    }
    // The push restarts from zero.
    assert_eq!(t.on_mouse_move(1, 0, None, 4), MoveOutcome::Pushing);
    // Moving back inside forgets the push.
    assert_eq!(t.on_mouse_move(-50, 0, None, 5), MoveOutcome::Inside);
}

#[test]
fn a_vertical_push_wins_only_when_larger() {
    let mut t = CursorTracker::new(0);
    t.on_capture_start(Some((0, 0, 100, 100)), Some((0, 0)), 0);
    match t.on_mouse_move(-30, -40, None, 1) {
        MoveOutcome::EdgePushed { edge, .. } => assert_eq!(edge, EDGE_TOP),
        other => panic!("unexpected {other:?}"),
    }
    t.on_capture_start(Some((0, 0, 100, 100)), Some((0, 99)), 2);
    match t.on_mouse_move(-30, 30, None, 3) {
        MoveOutcome::EdgePushed { edge, .. } => assert_eq!(edge, EDGE_LEFT),
        other => panic!("unexpected {other:?}"),
    }
    t.on_capture_start(Some((0, 0, 100, 100)), Some((50, 99)), 4);
    match t.on_mouse_move(0, 30, None, 5) {
        MoveOutcome::EdgePushed { edge, num, den } => {
            assert_eq!(edge, EDGE_BOTTOM);
            assert_eq!((num, den), (50, 99));
        }
        other => panic!("unexpected {other:?}"),
    }
}

#[test]
fn hand_back_requests_respect_the_cooldown_and_pointer_lock() {
    let mut t = tracking(0);
    assert!(!t.confirm_edge(true, 100));
    assert!(t.confirm_edge(false, 100));
    assert!(!t.confirm_edge(false, 100 + EDGE_COOLDOWN_MS - 1));
    assert!(t.confirm_edge(false, 100 + EDGE_COOLDOWN_MS));
}

#[test]
fn entering_places_the_cursor_just_inside_the_edge() {
    let mut t = tracking(0);
    assert_eq!(t.enter_span(EDGE_LEFT), Some(1079));
    assert_eq!(t.enter_span(EDGE_TOP), Some(1919));
    assert_eq!(t.enter_span(9), None);
    assert_eq!(t.on_enter_at(EDGE_LEFT, 540), Some((1, 540)));
    assert_eq!(t.on_enter_at(EDGE_RIGHT, 10), Some((1918, 10)));
    assert_eq!(t.on_enter_at(EDGE_BOTTOM, 700), Some((700, 1078)));
    assert_eq!(t.on_enter_at(42, 700), None);
    t.on_capture_end();
    assert!(!t.is_active());
}

#[test]
fn the_estimate_resyncs_to_samples() {
    let mut t = tracking(0);
    // Too early: the sample is ignored and the delta applies to the estimate.
    assert_eq!(t.on_mouse_move(0, 0, Some((10, 10)), 100), MoveOutcome::Inside);
    // Late enough: the estimate jumps to the sample first; 10 - 20 is past the left edge.
    match t.on_mouse_move(-20, 0, Some((10, 10)), 200) {
        MoveOutcome::Pushing => {}
        other => panic!("unexpected {other:?}"),
    }
}
