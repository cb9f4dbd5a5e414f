//! The host's capture logic: where each client sits relative to the host
//! monitors, when a cursor move hands input over to a client, what is sent
//! while input is captured, and how control comes back.
//!
//! The keyboard/mouse hooks deliver raw events to [`HookState`]; it answers
//! with whether to swallow the event and with a list of [`HookAction`]s
//! (events to send, cursor moves, cursor visibility) for the caller to carry out.
use vstd::prelude::*;
use crate::keys::{HeldKeys, spec_scancode_to_evdev, scancode_to_evdev, HELD_CODES};
use crate::protocol::{Event, EDGE_BOTTOM, EDGE_LEFT, EDGE_RIGHT, EDGE_TOP};

verus! {

/// Integer rectangle (right/bottom exclusive).
#[derive(Debug, Clone, Copy, PartialEq, Eq, Structural)]
pub struct Rect {
    pub left: i32,
    pub top: i32,
    pub right: i32,
    pub bottom: i32,
}

impl Rect {
    /// `right - left` (wrapping on overflow).
    pub fn width(&self) -> (r: i32)
        ensures
            r == self.right.wrapping_sub(self.left),
    {
        self.right.wrapping_sub(self.left)
    }

    /// `bottom - top` (wrapping on overflow).
    pub fn height(&self) -> (r: i32)
        ensures
            r == self.bottom.wrapping_sub(self.top),
    {
        self.bottom.wrapping_sub(self.top)
    }
}

/// Where a client screen sits relative to the host monitors.
#[derive(Debug, Clone, Copy, PartialEq, Eq, Structural)]
pub enum Layout {
    /// Past an outer edge of the whole desktop. `side`: 0=right 1=left
    /// 2=bottom 3=top; `screen` is the virtual screen.
    Edge { side: u8, screen: Rect },
    /// Between two horizontally adjacent monitors: crossing `boundary_x`
    /// inside the band both monitors share routes input through the client.
    Between { left_mon: Rect, right_mon: Rect, boundary_x: i32 },
    /// Between two vertically adjacent monitors, crossing at `boundary_y`.
    Stacked { top_mon: Rect, bottom_mon: Rect, boundary_y: i32 },
    /// Past the free `side` of one monitor `rect`.
    MonitorSide { rect: Rect, side: u8 },
}

/// One client and where it sits.
#[derive(Debug, Clone, Copy, PartialEq, Eq, Structural)]
pub struct Portal {
    pub client: usize,
    pub layout: Layout,
}

/// How the cursor enters a client: the client-screen edge, the coordinate
/// along that edge and the span it lies in (the caller turns
/// `(along - lo) / (hi - lo)` into the fraction it sends), and which side
/// of a two-monitor gap the cursor came from (0 = left/top, 1 = right/bottom).
#[derive(Debug, Clone, Copy, PartialEq, Eq, Structural)]
pub struct Entry {
    pub edge: u8,
    pub along: i32,
    pub lo: i32,
    pub hi: i32,
    pub came_from: u32,
}

/// Where the host cursor reappears when control comes back: one coordinate
/// is fixed; the other lies in `[lo, hi)` at the fraction the client reports.
#[derive(Debug, Clone, Copy, PartialEq, Eq, Structural)]
pub struct ReturnSpan {
    /// True when `fixed` is the x coordinate (the span is vertical).
    pub fixed_is_x: bool,
    pub fixed: i32,
    pub lo: i32,
    pub hi: i32,
}

/// Something the caller must do after an event was handled.
#[derive(Debug)]
pub enum HookAction {
    /// Send `event` to `client`.
    Send { client: usize, event: Event },
    /// Send `EnterAt` to `client`, with the fraction `(along - lo) / (hi - lo)`
    /// clamped to [0, 1] (0.5 for an empty span).
    EnterAt { client: usize, edge: u8, along: i32, lo: i32, hi: i32 },
    /// Show or hide the host cursor.
    ShowCursor { show: bool },
    /// Move the host cursor (a move the hook must then see as a reset).
    SetCursor { x: i32, y: i32 },
}

/// Answer to one hook event.
#[derive(Debug)]
pub struct HookOutcome {
    /// Swallow the event instead of passing it on to the system.
    pub suppress: bool,
    pub actions: Vec<HookAction>,
}

/// A low-level keyboard event.
#[derive(Debug, Clone, Copy)]
pub struct KeyInput {
    pub vk: u32,
    pub scancode: u32,
    pub flags: u32,
}

/// A low-level mouse event: the window message, cursor position, message
/// data and flags, and whether the caller is currently moving the cursor itself.
#[derive(Debug, Clone, Copy)]
pub struct MouseInput {
    pub msg: u32,
    pub x: i32,
    pub y: i32,
    pub mouse_data: u32,
    pub flags: u32,
    pub resetting: bool,
}

pub const WM_MOUSEMOVE: u32 = 0x0200;
pub const WM_LBUTTONDOWN: u32 = 0x0201;
pub const WM_LBUTTONUP: u32 = 0x0202;
pub const WM_RBUTTONDOWN: u32 = 0x0204;
pub const WM_RBUTTONUP: u32 = 0x0205;
pub const WM_MBUTTONDOWN: u32 = 0x0207;
pub const WM_MBUTTONUP: u32 = 0x0208;
pub const WM_MOUSEWHEEL: u32 = 0x020A;
pub const WM_XBUTTONDOWN: u32 = 0x020B;
pub const WM_XBUTTONUP: u32 = 0x020C;

/// Pixels the returning cursor is placed inside the boundary/edge so the next
/// move does not capture again at once.
pub const RETURN_MARGIN: i32 = 16;

pub open spec fn key_down(flags: u32) -> bool {
    flags & 0x80u32 == 0
}

pub open spec fn key_extended(flags: u32) -> bool {
    flags & 0x01u32 != 0
}

pub open spec fn key_injected(flags: u32) -> bool {
    flags & 0x10u32 != 0
}

pub open spec fn mouse_injected(flags: u32) -> bool {
    flags & 0x01u32 != 0
}

pub open spec fn max_i32(a: i32, b: i32) -> i32 {
    if a >= b { a } else { b }
}

pub open spec fn min_i32(a: i32, b: i32) -> i32 {
    if a <= b { a } else { b }
}

/// Whether the cursor at (x, y) is on `side` of `r`.
pub open spec fn edge_hit(side: u8, r: Rect, x: i32, y: i32) -> bool {
    if side == 0 {
        x >= r.right.wrapping_sub(1)
    } else if side == 1 {
        x <= r.left
    } else if side == 2 {
        y >= r.bottom.wrapping_sub(1)
    } else if side == 3 {
        y <= r.top
    } else {
        false
    }
}

/// Entry through the far side of the client when leaving `r` on `side`: the
/// client edge is the opposite one and the position runs along the shared edge.
pub open spec fn side_entry(side: u8, r: Rect, x: i32, y: i32) -> Entry {
    if side == 0 {
        Entry { edge: EDGE_LEFT, along: y, lo: r.top, hi: r.bottom, came_from: 0 }
    } else if side == 1 {
        Entry { edge: EDGE_RIGHT, along: y, lo: r.top, hi: r.bottom, came_from: 0 }
    } else if side == 2 {
        Entry { edge: EDGE_TOP, along: x, lo: r.left, hi: r.right, came_from: 0 }
    } else {
        Entry { edge: EDGE_BOTTOM, along: x, lo: r.left, hi: r.right, came_from: 0 }
    }
}

/// Whether (x, y) lies in the span of `r` that runs along `side`.
pub open spec fn along_side(side: u8, r: Rect, x: i32, y: i32) -> bool {
    if side == 0 || side == 1 {
        r.top <= y < r.bottom
    } else {
        r.left <= x < r.right
    }
}

/// Whether a move from the previous position to (x, y) enters the client of
/// `layout`, and how.
pub open spec fn portal_entry(
    layout: Layout,
    connected: bool,
    prev_valid: bool,
    px: i32,
    py: i32,
    x: i32,
    y: i32,
) -> Option<Entry> {
    match layout {
        Layout::Edge { side, screen } => {
            if connected && edge_hit(side, screen, x, y) {
                Some(side_entry(side, screen, x, y))
            } else {
                None
            }
        },
        Layout::MonitorSide { rect, side } => {
            if connected && edge_hit(side, rect, x, y) && along_side(side, rect, x, y) {
                Some(side_entry(side, rect, x, y))
            } else {
                None
            }
        },
        Layout::Between { left_mon, right_mon, boundary_x } => {
            let lo = max_i32(left_mon.top, right_mon.top);
            let hi = min_i32(left_mon.bottom, right_mon.bottom);
            let in_band = lo <= y < hi;
            if !prev_valid || !connected {
                None
            } else if px < boundary_x && x >= boundary_x && in_band {
                Some(Entry { edge: EDGE_LEFT, along: y, lo, hi, came_from: 0 })
            } else if px >= boundary_x && x < boundary_x && in_band {
                Some(Entry { edge: EDGE_RIGHT, along: y, lo, hi, came_from: 1 })
            } else {
                None
            }
        },
        Layout::Stacked { top_mon, bottom_mon, boundary_y } => {
            let lo = max_i32(top_mon.left, bottom_mon.left);
            let hi = min_i32(top_mon.right, bottom_mon.right);
            let in_band = lo <= x < hi;
            if !prev_valid || !connected {
                None
            } else if py < boundary_y && y >= boundary_y && in_band {
                Some(Entry { edge: EDGE_TOP, along: x, lo, hi, came_from: 0 })
            } else if py >= boundary_y && y < boundary_y && in_band {
                Some(Entry { edge: EDGE_BOTTOM, along: x, lo, hi, came_from: 1 })
            } else {
                None
            }
        },
    }
}

/// The abstract state of the capture logic.
pub struct HookView {
    pub portals: Seq<Portal>,
    pub connected: Seq<bool>,
    /// Index of the portal input is routed to, while capturing.
    pub active: Option<int>,
    pub ctrl: bool,
    pub shift: bool,
    pub alt: bool,
    /// Where the captured cursor is parked.
    pub center_x: i32,
    pub center_y: i32,
    /// Last non-captured cursor position, once one is known.
    pub prev_x: i32,
    pub prev_y: i32,
    pub prev_valid: bool,
    pub came_from: u32,
    /// Codes pressed on the client and not yet released.
    pub held: Set<u16>,
}

/// The first portal, from index `start` on, that the move enters.
pub open spec fn first_entry_from(v: HookView, start: int, x: i32, y: i32) -> Option<(int, Entry)>
    decreases v.portals.len() - start,
{
    if start < 0 || start >= v.portals.len() {
        None
    } else {
        match portal_entry(
            v.portals[start].layout,
            v.connected[start],
            v.prev_valid,
            v.prev_x,
            v.prev_y,
            x,
            y,
        ) {
            Some(e) => Some((start, e)),
            None => first_entry_from(v, start + 1, x, y),
        }
    }
}

/// Modifier tracking: left/right Ctrl, Shift and Alt virtual keys.
pub open spec fn with_modifier(v: HookView, vk: u32, down: bool) -> HookView {
    if vk == 0xA2 || vk == 0xA3 {
        HookView { ctrl: down, ..v }
    } else if vk == 0xA0 || vk == 0xA1 {
        HookView { shift: down, ..v }
    } else if vk == 0xA4 || vk == 0xA5 {
        HookView { alt: down, ..v }
    } else {
        v
    }
}

pub open spec fn with_prev(v: HookView, x: i32, y: i32) -> HookView {
    HookView { prev_x: x, prev_y: y, prev_valid: true, ..v }
}

/// Capture off: no active client, no modifiers, no held keys.
pub open spec fn released(v: HookView) -> HookView {
    HookView { active: None, ctrl: false, shift: false, alt: false, held: Set::empty(), ..v }
}

/// Capture on for portal `i`, entered as `e`.
pub open spec fn entered(v: HookView, i: int, e: Entry) -> HookView {
    HookView {
        active: Some(i),
        ctrl: false,
        shift: false,
        alt: false,
        held: Set::empty(),
        came_from: e.came_from,
        ..v
    }
}

/// What entering capture asks of the caller: hide and park the cursor, tell
/// the client capture started and where the cursor came in.
pub open spec fn enter_actions(v: HookView, i: int, e: Entry) -> Seq<HookAction> {
    seq![
        HookAction::ShowCursor { show: false },
        HookAction::SetCursor { x: v.center_x, y: v.center_y },
        HookAction::Send { client: v.portals[i].client, event: Event::CaptureStart },
        HookAction::EnterAt { client: v.portals[i].client, edge: e.edge, along: e.along, lo: e.lo, hi: e.hi },
    ]
}

/// Whether `codes` lists exactly the members of `held`, in increasing order.
pub open spec fn lists_exactly(codes: Seq<u16>, held: Set<u16>) -> bool {
    &&& forall|i: int, j: int| 0 <= i < j < codes.len() ==> codes[i] < codes[j]
    &&& forall|c: u16| codes.contains(c) <==> held.contains(c)
}

/// `acts[start..]` tells `client` which keys to release (only when some are
/// held) and then that capture ended.
pub open spec fn sync_then_end(acts: Seq<HookAction>, start: int, client: usize, held: Set<u16>) -> bool {
    if held == Set::<u16>::empty() {
        &&& acts.len() == start + 1
        &&& acts[start] == (HookAction::Send { client, event: Event::CaptureEnd })
    } else {
        &&& acts.len() == start + 2
        &&& acts[start] matches HookAction::Send { client: c, event: Event::SyncKeys { keycodes_down } }
            && c == client && lists_exactly(keycodes_down@, held)
        &&& acts[start + 1] == (HookAction::Send { client, event: Event::CaptureEnd })
    }
}

/// `v / 2` rounded toward zero, as integer division does.
pub open spec fn half(v: i32) -> int {
    if v >= 0 { v / 2 } else { -((-v) / 2) }
}

/// Centre of `m` (coordinates summed with wrapping).
pub open spec fn center_of(m: Rect) -> (i32, i32) {
    (half(m.left.wrapping_add(m.right)) as i32, half(m.top.wrapping_add(m.bottom)) as i32)
}

/// Where the release combo puts the cursor: back in the middle of the monitor
/// capture came from for a two-monitor gap, else at the park position.
pub open spec fn exit_position(v: HookView) -> (i32, i32) {
    match v.active {
        Some(i) => match v.portals[i].layout {
            Layout::Between { left_mon, right_mon, .. } => center_of(
                if v.came_from == 0 { left_mon } else { right_mon },
            ),
            Layout::Stacked { top_mon, bottom_mon, .. } => center_of(
                if v.came_from == 0 { top_mon } else { bottom_mon },
            ),
            _ => (v.center_x, v.center_y),
        },
        None => (v.center_x, v.center_y),
    }
}

/// Client of the active portal.
pub open spec fn active_client(v: HookView) -> usize
    recommends
        v.active is Some,
{
    v.portals[v.active->0].client
}

/// Effect of the release combo (Ctrl+Shift+Alt while capturing).
pub open spec fn exit_effect(v: HookView, post: HookView, acts: Seq<HookAction>) -> bool {
    let (x, y) = exit_position(v);
    &&& post == with_prev(released(v), x, y)
    &&& acts.len() >= 2
    &&& acts[0] == (HookAction::ShowCursor { show: true })
    &&& acts[1] == (HookAction::SetCursor { x, y })
    &&& sync_then_end(acts, 2, active_client(v), v.held)
}

/// The held set after a key press or release is forwarded.
pub open spec fn held_after(held: Set<u16>, code: u16, down: bool) -> Set<u16> {
    if code < HELD_CODES {
        if down { held.insert(code) } else { held.remove(code) }
    } else {
        held
    }
}

/// The mouse-button code in the high word of an X-button message.
pub open spec fn high_word(d: u32) -> int {
    (d / 65536) as int
}

/// Wheel notches in a wheel message: the signed high word over 120, toward zero.
pub open spec fn wheel_clicks(d: u32) -> i32 {
    let raw: int = if high_word(d) >= 32768 { high_word(d) - 65536 } else { high_word(d) };
    (if raw >= 0 { raw / 120 } else { -((-raw) / 120) }) as i32
}

/// The event a button or wheel message becomes while capturing.
pub open spec fn captured_mouse_event(msg: u32, d: u32) -> Option<Event> {
    if msg == WM_LBUTTONDOWN {
        Some(Event::MouseButton { btn: 0x110, pressed: true })
    } else if msg == WM_LBUTTONUP {
        Some(Event::MouseButton { btn: 0x110, pressed: false })
    } else if msg == WM_RBUTTONDOWN {
        Some(Event::MouseButton { btn: 0x111, pressed: true })
    } else if msg == WM_RBUTTONUP {
        Some(Event::MouseButton { btn: 0x111, pressed: false })
    } else if msg == WM_MBUTTONDOWN {
        Some(Event::MouseButton { btn: 0x112, pressed: true })
    } else if msg == WM_MBUTTONUP {
        Some(Event::MouseButton { btn: 0x112, pressed: false })
    } else if msg == WM_XBUTTONDOWN {
        Some(Event::MouseButton { btn: if high_word(d) == 2 { 0x114 } else { 0x113 }, pressed: true })
    } else if msg == WM_XBUTTONUP {
        Some(Event::MouseButton { btn: if high_word(d) == 2 { 0x114 } else { 0x113 }, pressed: false })
    } else if msg == WM_MOUSEWHEEL && wheel_clicks(d) != 0 {
        Some(Event::Scroll { dx: 0, dy: wheel_clicks(d) })
    } else {
        None
    }
}

/// Where the host cursor goes back to when the client cursor leaves through
/// `edge` of its screen; `None` when that edge does not face the host.
pub open spec fn return_span_of(layout: Layout, edge: u8) -> Option<ReturnSpan> {
    match layout {
        Layout::Between { left_mon, right_mon, boundary_x } => {
            let lo = max_i32(left_mon.top, right_mon.top);
            let hi = min_i32(left_mon.bottom, right_mon.bottom);
            if edge == EDGE_RIGHT {
                Some(ReturnSpan { fixed_is_x: true, fixed: boundary_x.wrapping_add(RETURN_MARGIN), lo, hi })
            } else if edge == EDGE_LEFT {
                Some(ReturnSpan { fixed_is_x: true, fixed: boundary_x.wrapping_sub(1).wrapping_sub(RETURN_MARGIN), lo, hi })
            } else {
                None
            }
        },
        Layout::Stacked { top_mon, bottom_mon, boundary_y } => {
            let lo = max_i32(top_mon.left, bottom_mon.left);
            let hi = min_i32(top_mon.right, bottom_mon.right);
            if edge == EDGE_BOTTOM {
                Some(ReturnSpan { fixed_is_x: false, fixed: boundary_y.wrapping_add(RETURN_MARGIN), lo, hi })
            } else if edge == EDGE_TOP {
                Some(ReturnSpan { fixed_is_x: false, fixed: boundary_y.wrapping_sub(1).wrapping_sub(RETURN_MARGIN), lo, hi })
            } else {
                None
            }
        },
        Layout::Edge { side, screen } => side_return(side, screen, edge),
        Layout::MonitorSide { rect, side } => side_return(side, rect, edge),
    }
}

/// Return placement for a client past `side` of `r`: only the client edge
/// facing the host hands control back.
pub open spec fn side_return(side: u8, r: Rect, edge: u8) -> Option<ReturnSpan> {
    if side == 0 && edge == EDGE_LEFT {
        Some(ReturnSpan { fixed_is_x: true, fixed: r.right.wrapping_sub(1).wrapping_sub(RETURN_MARGIN), lo: r.top, hi: r.bottom })
    } else if side == 1 && edge == EDGE_RIGHT {
        Some(ReturnSpan { fixed_is_x: true, fixed: r.left.wrapping_add(RETURN_MARGIN), lo: r.top, hi: r.bottom })
    } else if side == 2 && edge == EDGE_TOP {
        Some(ReturnSpan { fixed_is_x: false, fixed: r.bottom.wrapping_sub(1).wrapping_sub(RETURN_MARGIN), lo: r.left, hi: r.right })
    } else if side == 3 && edge == EDGE_BOTTOM {
        Some(ReturnSpan { fixed_is_x: false, fixed: r.top.wrapping_add(RETURN_MARGIN), lo: r.left, hi: r.right })
    } else {
        None
    }
}

} // verus!

verus! {

/// Whether the move enters a client at the portal's own index (exec form of
/// [`portal_entry`]).
fn check_portal(
    layout: Layout,
    connected: bool,
    prev_valid: bool,
    px: i32,
    py: i32,
    x: i32,
    y: i32,
) -> (r: Option<Entry>)
    ensures
        r == portal_entry(layout, connected, prev_valid, px, py, x, y),
{
    match layout {
        Layout::Edge { side, screen } => {
            if connected && hits_edge(side, screen, x, y) {
                Some(entry_past(side, screen, x, y))
            } else {
                None
            }
        },
        Layout::MonitorSide { rect, side } => {
            let in_span = if side == 0 || side == 1 {
                rect.top <= y && y < rect.bottom
            } else {
                rect.left <= x && x < rect.right
            };
            if connected && hits_edge(side, rect, x, y) && in_span {
                Some(entry_past(side, rect, x, y))
            } else {
                None
            }
        },
        Layout::Between { left_mon, right_mon, boundary_x } => {
            let lo = if left_mon.top >= right_mon.top { left_mon.top } else { right_mon.top };
            let hi = if left_mon.bottom <= right_mon.bottom { left_mon.bottom } else { right_mon.bottom };
            let in_band = lo <= y && y < hi;
            if !prev_valid || !connected {
                None
            } else if px < boundary_x && x >= boundary_x && in_band {
                Some(Entry { edge: EDGE_LEFT, along: y, lo, hi, came_from: 0 })
            } else if px >= boundary_x && x < boundary_x && in_band {
                Some(Entry { edge: EDGE_RIGHT, along: y, lo, hi, came_from: 1 })
            } else {
                None
            }
        },
        Layout::Stacked { top_mon, bottom_mon, boundary_y } => {
            let lo = if top_mon.left >= bottom_mon.left { top_mon.left } else { bottom_mon.left };
            let hi = if top_mon.right <= bottom_mon.right { top_mon.right } else { bottom_mon.right };
            let in_band = lo <= x && x < hi;
            if !prev_valid || !connected {
                None
            } else if py < boundary_y && y >= boundary_y && in_band {
                Some(Entry { edge: EDGE_TOP, along: x, lo, hi, came_from: 0 })
            } else if py >= boundary_y && y < boundary_y && in_band {
                Some(Entry { edge: EDGE_BOTTOM, along: x, lo, hi, came_from: 1 })
            } else {
                None
            }
        },
    }
}

fn hits_edge(side: u8, r: Rect, x: i32, y: i32) -> (b: bool)
    ensures
        b == edge_hit(side, r, x, y),
{
    if side == 0 {
        x >= r.right.wrapping_sub(1)
    } else if side == 1 {
        x <= r.left
    } else if side == 2 {
        y >= r.bottom.wrapping_sub(1)
    } else if side == 3 {
        y <= r.top
    } else {
        false
    }
}

fn entry_past(side: u8, r: Rect, x: i32, y: i32) -> (e: Entry)
    ensures
        e == side_entry(side, r, x, y),
{
    if side == 0 {
        Entry { edge: EDGE_LEFT, along: y, lo: r.top, hi: r.bottom, came_from: 0 }
    } else if side == 1 {
        Entry { edge: EDGE_RIGHT, along: y, lo: r.top, hi: r.bottom, came_from: 0 }
    } else if side == 2 {
        Entry { edge: EDGE_TOP, along: x, lo: r.left, hi: r.right, came_from: 0 }
    } else {
        Entry { edge: EDGE_BOTTOM, along: x, lo: r.left, hi: r.right, came_from: 0 }
    }
}

/// Where the host cursor goes back to when the client cursor leaves through
/// `edge` of its screen, for a client placed as `layout`.
pub fn return_span_for(layout: Layout, edge: u8) -> (r: Option<ReturnSpan>)
    ensures
        r == return_span_of(layout, edge),
{
    match layout {
        Layout::Between { left_mon, right_mon, boundary_x } => {
            let lo = if left_mon.top >= right_mon.top { left_mon.top } else { right_mon.top };
            let hi = if left_mon.bottom <= right_mon.bottom { left_mon.bottom } else { right_mon.bottom };
            if edge == EDGE_RIGHT {
                Some(ReturnSpan { fixed_is_x: true, fixed: boundary_x.wrapping_add(RETURN_MARGIN), lo, hi })
            } else if edge == EDGE_LEFT {
                Some(ReturnSpan { fixed_is_x: true, fixed: boundary_x.wrapping_sub(1).wrapping_sub(RETURN_MARGIN), lo, hi })
            } else {
                None
            }
        },
        Layout::Stacked { top_mon, bottom_mon, boundary_y } => {
            let lo = if top_mon.left >= bottom_mon.left { top_mon.left } else { bottom_mon.left };
            let hi = if top_mon.right <= bottom_mon.right { top_mon.right } else { bottom_mon.right };
            if edge == EDGE_BOTTOM {
                Some(ReturnSpan { fixed_is_x: false, fixed: boundary_y.wrapping_add(RETURN_MARGIN), lo, hi })
            } else if edge == EDGE_TOP {
                Some(ReturnSpan { fixed_is_x: false, fixed: boundary_y.wrapping_sub(1).wrapping_sub(RETURN_MARGIN), lo, hi })
            } else {
                None
            }
        },
        Layout::Edge { side, screen } => return_past(side, screen, edge),
        Layout::MonitorSide { rect, side } => return_past(side, rect, edge),
    }
}

fn return_past(side: u8, r: Rect, edge: u8) -> (s: Option<ReturnSpan>)
    ensures
        s == side_return(side, r, edge),
{
    if side == 0 && edge == EDGE_LEFT {
        Some(ReturnSpan { fixed_is_x: true, fixed: r.right.wrapping_sub(1).wrapping_sub(RETURN_MARGIN), lo: r.top, hi: r.bottom })
    } else if side == 1 && edge == EDGE_RIGHT {
        Some(ReturnSpan { fixed_is_x: true, fixed: r.left.wrapping_add(RETURN_MARGIN), lo: r.top, hi: r.bottom })
    } else if side == 2 && edge == EDGE_TOP {
        Some(ReturnSpan { fixed_is_x: false, fixed: r.bottom.wrapping_sub(1).wrapping_sub(RETURN_MARGIN), lo: r.left, hi: r.right })
    } else if side == 3 && edge == EDGE_BOTTOM {
        Some(ReturnSpan { fixed_is_x: false, fixed: r.top.wrapping_add(RETURN_MARGIN), lo: r.left, hi: r.right })
    } else {
        None
    }
}

fn half_of(v: i32) -> (r: i32)
    ensures
        r as int == half(v),
{
    let w = v as i64;
    let h = if w >= 0 { w / 2 } else { 0 - ((0 - w) / 2) };
    h as i32
}

/// Centre of a rectangle, where the host parks the captured cursor when `m`
/// is the virtual screen.
pub fn center_point(m: Rect) -> (r: (i32, i32))
    ensures
        r == center_of(m),
{
    (half_of(m.left.wrapping_add(m.right)), half_of(m.top.wrapping_add(m.bottom)))
}

fn mouse_event_for(msg: u32, d: u32) -> (r: Option<Event>)
    ensures
        r == captured_mouse_event(msg, d),
{
    let hw: u32 = d / 65536;
    if msg == WM_LBUTTONDOWN {
        Some(Event::MouseButton { btn: 0x110, pressed: true })
    } else if msg == WM_LBUTTONUP {
        Some(Event::MouseButton { btn: 0x110, pressed: false })
    } else if msg == WM_RBUTTONDOWN {
        Some(Event::MouseButton { btn: 0x111, pressed: true })
    } else if msg == WM_RBUTTONUP {
        Some(Event::MouseButton { btn: 0x111, pressed: false })
    } else if msg == WM_MBUTTONDOWN {
        Some(Event::MouseButton { btn: 0x112, pressed: true })
    } else if msg == WM_MBUTTONUP {
        Some(Event::MouseButton { btn: 0x112, pressed: false })
    } else if msg == WM_XBUTTONDOWN {
        Some(Event::MouseButton { btn: if hw == 2 { 0x114 } else { 0x113 }, pressed: true })
    } else if msg == WM_XBUTTONUP {
        Some(Event::MouseButton { btn: if hw == 2 { 0x114 } else { 0x113 }, pressed: false })
    } else if msg == WM_MOUSEWHEEL {
        let raw: i64 = if hw >= 32768 { hw as i64 - 65536 } else { hw as i64 };
        let clicks: i64 = if raw >= 0 { raw / 120 } else { 0 - ((0 - raw) / 120) };
        let clicks = clicks as i32;
        assert(clicks == wheel_clicks(d));
        if clicks != 0 {
            Some(Event::Scroll { dx: 0, dy: clicks })
        } else {
            None
        }
    } else {
        None
    }
}

/// The host's capture state: the configured portals, which clients are
/// connected, whether (and to whom) input is routed, modifier and held-key
/// tracking, and the last cursor position.
pub struct HookState {
    portals: Vec<Portal>,
    connected: Vec<bool>,
    active: Option<usize>,
    ctrl: bool,
    shift: bool,
    alt: bool,
    center_x: i32,
    center_y: i32,
    prev_x: i32,
    prev_y: i32,
    prev_valid: bool,
    came_from: u32,
    held: HeldKeys,
}

impl HookState {
    pub closed spec fn view(&self) -> HookView {
        HookView {
            portals: self.portals@,
            connected: self.connected@,
            active: match self.active {
                Some(i) => Some(i as int),
                None => None,
            },
            ctrl: self.ctrl,
            shift: self.shift,
            alt: self.alt,
            center_x: self.center_x,
            center_y: self.center_y,
            prev_x: self.prev_x,
            prev_y: self.prev_y,
            prev_valid: self.prev_valid,
            came_from: self.came_from,
            held: self.held@,
        }
    }

    /// The portal and connection lists line up, the active portal exists,
    /// and the held-key set is well formed.
    pub closed spec fn wf(&self) -> bool {
        &&& self.portals@.len() == self.connected@.len()
        &&& (self.active matches Some(i) ==> i < self.portals@.len())
        &&& self.held.wf()
    }

    /// A well-formed state has one connection flag per portal, and its active
    /// portal, if any, is one of them.
    pub proof fn lemma_wf_shape(&self)
        requires
            self.wf(),
        ensures
            self@.portals.len() == self@.connected.len(),
            self@.active matches Some(i) ==> 0 <= i < self@.portals.len(),
    {
    }

    /// No client placed yet, nothing connected, not capturing; the captured
    /// cursor parks at (960, 540) until told otherwise.
    pub fn new() -> (r: Self)
        ensures
            r.wf(),
            r@.portals.len() == 0,
            r@.connected.len() == 0,
            r@.active is None,
            !r@.ctrl && !r@.shift && !r@.alt,
            r@.center_x == 960 && r@.center_y == 540,
            r@.prev_x == 0 && r@.prev_y == 0 && !r@.prev_valid,
            r@.came_from == 0,
            r@.held == Set::<u16>::empty(),
    {
        HookState {
            portals: Vec::new(),
            connected: Vec::new(),
            active: None,
            ctrl: false,
            shift: false,
            alt: false,
            center_x: 960,
            center_y: 540,
            prev_x: 0,
            prev_y: 0,
            prev_valid: false,
            came_from: 0,
            held: HeldKeys::new(),
        }
    }

    /// Install the placement of every client. Only the first configuration
    /// counts; later calls leave it unchanged. No client starts connected.
    pub fn configure_portals(&mut self, portals: Vec<Portal>)
        requires
            old(self).wf(),
        ensures
            final(self).wf(),
            old(self)@.portals.len() == 0 ==> final(self)@ == (HookView {
                portals: portals@,
                connected: Seq::new(portals@.len(), |i: int| false),
                ..old(self)@
            }),
            old(self)@.portals.len() != 0 ==> final(self)@ == old(self)@,
    {
        if self.portals.len() == 0 {
            let n = portals.len();
            let mut connected: Vec<bool> = Vec::new();
            let mut i: usize = 0;
            while i < n
                invariant
                    i <= n,
                    connected@ == Seq::new(i as nat, |k: int| false),
                decreases n - i,
            {
                connected.push(false);
                i = i + 1;
                assert(connected@ =~= Seq::new(i as nat, |k: int| false));
            }
            self.portals = portals;
            self.connected = connected;
            self.active = None;
            assert(self@ =~= (HookView {
                portals: portals@,
                connected: Seq::new(portals@.len(), |i: int| false),
                ..old(self)@
            }));
        }
    }

    /// Install a single client (id 0) placed as `layout`; like
    /// `configure_portals`, only the first configuration counts.
    pub fn configure_layout(&mut self, layout: Layout)
        requires
            old(self).wf(),
        ensures
            final(self).wf(),
            old(self)@.portals.len() == 0 ==> final(self)@ == (HookView {
                portals: seq![Portal { client: 0, layout }],
                connected: seq![false],
                ..old(self)@
            }),
            old(self)@.portals.len() != 0 ==> final(self)@ == old(self)@,
    {
        let mut v: Vec<Portal> = Vec::new();
        v.push(Portal { client: 0, layout });
        self.configure_portals(v);
        assert(Seq::new(1nat, |i: int| false) =~= seq![false]);
    }

    /// Record whether `client`'s connection is live. Capture only starts
    /// toward a connected client.
    pub fn set_client_connected(&mut self, client: usize, val: bool)
        requires
            old(self).wf(),
        ensures
            final(self).wf(),
            final(self)@ == (HookView {
                connected: Seq::new(
                    old(self)@.connected.len(),
                    |i: int| if old(self)@.portals[i].client == client { val } else { old(self)@.connected[i] },
                ),
                ..old(self)@
            }),
    {
        let n = self.connected.len();
        let mut i: usize = 0;
        while i < n
            invariant
                n == self.connected@.len(),
                self.portals@ == old(self).portals@,
                self.connected@.len() == old(self).connected@.len(),
                self.active == old(self).active,
                self.held == old(self).held,
                self.ctrl == old(self).ctrl && self.shift == old(self).shift && self.alt == old(self).alt,
                self.center_x == old(self).center_x && self.center_y == old(self).center_y,
                self.prev_x == old(self).prev_x && self.prev_y == old(self).prev_y,
                self.prev_valid == old(self).prev_valid && self.came_from == old(self).came_from,
                old(self).wf(),
                i <= n,
                forall|k: int| 0 <= k < i ==> self.connected@[k] == (if self.portals@[k].client == client { val } else { old(self).connected@[k] }),
                forall|k: int| i <= k < n ==> self.connected@[k] == old(self).connected@[k],
            decreases n - i,
        {
            if self.portals[i].client == client {
                self.connected.set(i, val);
            }
            i = i + 1;
        }
        assert(self@.connected =~= Seq::new(
            old(self)@.connected.len(),
            |i: int| if old(self)@.portals[i].client == client { val } else { old(self)@.connected[i] },
        ));
    }

    /// Set the position the captured cursor is parked at.
    pub fn set_capture_center(&mut self, x: i32, y: i32)
        requires
            old(self).wf(),
        ensures
            final(self).wf(),
            final(self)@ == (HookView { center_x: x, center_y: y, ..old(self)@ }),
    {
        self.center_x = x;
        self.center_y = y;
    }

    /// Whether input is currently routed to a client.
    pub fn capturing(&self) -> (r: bool)
        ensures
            r == self@.active is Some,
    {
        self.active.is_some()
    }

    /// The client input is currently routed to.
    pub fn active_client(&self) -> (r: Option<usize>)
        requires
            self.wf(),
        ensures
            self@.active is None ==> r is None,
            self@.active is Some ==> r == Some(active_client(self@)),
    {
        match self.active {
            Some(i) => Some(self.portals[i].client),
            None => None,
        }
    }

    fn update_modifiers(&mut self, vk: u32, down: bool)
        ensures
            final(self)@ == with_modifier(old(self)@, vk, down),
            final(self).portals == old(self).portals,
            final(self).connected == old(self).connected,
            final(self).active == old(self).active,
            final(self).held == old(self).held,
    {
        if vk == 0xA2 || vk == 0xA3 {
            self.ctrl = down;
        } else if vk == 0xA0 || vk == 0xA1 {
            self.shift = down;
        } else if vk == 0xA4 || vk == 0xA5 {
            self.alt = down;
        }
    }

    fn set_prev(&mut self, x: i32, y: i32)
        ensures
            final(self)@ == with_prev(old(self)@, x, y),
            final(self).portals == old(self).portals,
            final(self).connected == old(self).connected,
            final(self).active == old(self).active,
            final(self).held == old(self).held,
    {
        self.prev_x = x;
        self.prev_y = y;
        self.prev_valid = true;
    }

    /// Stop capturing and reset modifiers; hand back the keys still held.
    fn release(&mut self) -> (held: Vec<u16>)
        requires
            old(self).wf(),
        ensures
            final(self).wf(),
            final(self)@ == released(old(self)@),
            lists_exactly(held@, old(self)@.held),
    {
        let held = self.held.collect();
        self.held.clear();
        self.active = None;
        self.ctrl = false;
        self.shift = false;
        self.alt = false;
        assert(self@ =~= released(old(self)@));
        held
    }

    /// Tell `client` which keys to release (if any) and that capture ended.
    fn push_sync_then_end(acts: &mut Vec<HookAction>, client: usize, held: Vec<u16>, Ghost(set): Ghost<Set<u16>>)
        requires
            lists_exactly(held@, set),
        ensures
            final(acts)@.subrange(0, old(acts)@.len() as int) == old(acts)@,
            sync_then_end(final(acts)@, old(acts)@.len() as int, client, set),
    {
        if held.len() > 0 {
            assert(held@.contains(held@[0]));
            assert(set.contains(held@[0]));
            acts.push(HookAction::Send { client, event: Event::SyncKeys { keycodes_down: held } });
        } else {
            assert(set =~= Set::<u16>::empty()) by {
                assert forall|c: u16| !set.contains(c) by {
                    assert(!held@.contains(c));
                }
            }
        }
        acts.push(HookAction::Send { client, event: Event::CaptureEnd });
    }

    /// Release combo: stop capturing, put the cursor back where the user came
    /// from, and tell the client to let go of every key.
    fn exit_capture(&mut self) -> (acts: Vec<HookAction>)
        requires
            old(self).wf(),
            old(self)@.active is Some,
        ensures
            final(self).wf(),
            exit_effect(old(self)@, final(self)@, acts@),
    {
        let ghost v = self@;
        let i = self.active.unwrap();
        let client = self.portals[i].client;
        let (x, y) = match self.portals[i].layout {
            Layout::Between { left_mon, right_mon, .. } => center_point(
                if self.came_from == 0 { left_mon } else { right_mon },
            ),
            Layout::Stacked { top_mon, bottom_mon, .. } => center_point(
                if self.came_from == 0 { top_mon } else { bottom_mon },
            ),
            _ => (self.center_x, self.center_y),
        };
        assert((x, y) == exit_position(v));
        let held = self.release();
        self.set_prev(x, y);
        let mut acts: Vec<HookAction> = Vec::new();
        acts.push(HookAction::ShowCursor { show: true });
        acts.push(HookAction::SetCursor { x, y });
        let ghost before = acts@;
        Self::push_sync_then_end(&mut acts, client, held, Ghost(v.held));
        assert(acts@[0] == acts@.subrange(0, 2)[0]);
        assert(acts@[1] == acts@.subrange(0, 2)[1]);
        assert(client == active_client(v));
        assert(self@ == with_prev(released(v), x, y));
        acts
    }

    /// Start capturing toward portal `i`, entered as `e`.
    fn enter_capture(&mut self, i: usize, e: Entry) -> (acts: Vec<HookAction>)
        requires
            old(self).wf(),
            i < old(self)@.portals.len(),
        ensures
            final(self).wf(),
            final(self)@ == entered(old(self)@, i as int, e),
            acts@ == enter_actions(old(self)@, i as int, e),
    {
        let ghost v = self@;
        self.held.clear();
        self.ctrl = false;
        self.shift = false;
        self.alt = false;
        self.came_from = e.came_from;
        self.active = Some(i);
        let client = self.portals[i].client;
        let mut acts: Vec<HookAction> = Vec::new();
        acts.push(HookAction::ShowCursor { show: false });
        acts.push(HookAction::SetCursor { x: self.center_x, y: self.center_y });
        acts.push(HookAction::Send { client, event: Event::CaptureStart });
        acts.push(HookAction::EnterAt { client, edge: e.edge, along: e.along, lo: e.lo, hi: e.hi });
        assert(self@ =~= entered(v, i as int, e));
        assert(acts@ =~= enter_actions(v, i as int, e));
        acts
    }

    /// Find the first portal this move enters (before the previous position is updated).
    fn find_entry(&self, x: i32, y: i32) -> (r: Option<(usize, Entry)>)
        requires
            self.wf(),
        ensures
            r is None ==> first_entry_from(self@, 0, x, y) is None,
            r matches Some((i, e)) ==> first_entry_from(self@, 0, x, y) == Some((i as int, e)) && i < self@.portals.len(),
    {
        let n = self.portals.len();
        let mut i: usize = 0;
        while i < n
            invariant
                self.wf(),
                n == self@.portals.len(),
                i <= n,
                first_entry_from(self@, 0, x, y) == first_entry_from(self@, i as int, x, y),
            decreases n - i,
        {
            let p = self.portals[i];
            let hit = check_portal(
                p.layout,
                self.connected[i],
                self.prev_valid,
                self.prev_x,
                self.prev_y,
                x,
                y,
            );
            if let Some(e) = hit {
                return Some((i, e));
            }
            i = i + 1;
        }
        None
    }
}

} // verus!

verus! {

impl HookState {
    /// Handle one keyboard event. Modifier state is always tracked. Injected
    /// events and events outside capture pass through. While capturing,
    /// Ctrl+Shift+Alt ends capture (and the key passes through); any other key
    /// is swallowed and, when it has an evdev code, forwarded to the client —
    /// except a repeated press of a key already held, which is dropped.
    pub fn on_key(&mut self, key: KeyInput) -> (out: HookOutcome)
        requires
            old(self).wf(),
        ensures
            final(self).wf(),
            ({
                let v1 = with_modifier(old(self)@, key.vk, key_down(key.flags));
                let down = key_down(key.flags);
                if key_injected(key.flags) || v1.active is None {
                    &&& final(self)@ == v1
                    &&& !out.suppress
                    &&& out.actions@.len() == 0
                } else if down && v1.ctrl && v1.shift && v1.alt {
                    &&& exit_effect(v1, final(self)@, out.actions@)
                    &&& !out.suppress
                } else {
                    &&& out.suppress
                    &&& match spec_scancode_to_evdev(key.scancode, key_extended(key.flags)) {
                        None => final(self)@ == v1 && out.actions@.len() == 0,
                        Some(c) => if down && v1.held.contains(c) {
                            final(self)@ == v1 && out.actions@.len() == 0
                        } else {
                            &&& final(self)@ == (HookView { held: held_after(v1.held, c, down), ..v1 })
                            &&& out.actions@ == seq![HookAction::Send {
                                client: active_client(v1),
                                event: if down { Event::KeyPress { keycode: c } } else { Event::KeyRelease { keycode: c } },
                            }]
                        },
                    }
                }
            }),
    {
        let is_down = key.flags & 0x80 == 0;
        let is_extended = key.flags & 0x01 != 0;
        self.update_modifiers(key.vk, is_down);
        let ghost v1 = self@;
        if key.flags & 0x10 != 0 || self.active.is_none() {
            return HookOutcome { suppress: false, actions: Vec::new() };
        }
        if is_down && self.ctrl && self.shift && self.alt {
            let actions = self.exit_capture();
            return HookOutcome { suppress: false, actions };
        }
        let mut actions: Vec<HookAction> = Vec::new();
        if let Some(code) = scancode_to_evdev(key.scancode, is_extended) {
            if is_down && self.held.is_set(code) {
                return HookOutcome { suppress: true, actions };
            }
            self.held.set(code, is_down);
            let client = self.portals[self.active.unwrap()].client;
            let event = if is_down { Event::KeyPress { keycode: code } } else { Event::KeyRelease { keycode: code } };
            actions.push(HookAction::Send { client, event });
            assert(self@ =~= (HookView { held: held_after(v1.held, code, is_down), ..v1 }));
        }
        HookOutcome { suppress: true, actions }
    }

    /// Handle one mouse event. Injected events pass through. While capturing,
    /// every event is swallowed: moves are sent as deltas from the park
    /// position (and the cursor is parked again), buttons and the wheel are
    /// forwarded. Outside capture, once a placement is configured, a move
    /// updates the previous position and may enter a client, in which case
    /// it is swallowed; with no placement, moves are left alone.
    pub fn on_mouse(&mut self, m: MouseInput) -> (out: HookOutcome)
        requires
            old(self).wf(),
        ensures
            final(self).wf(),
            ({
                let v = old(self)@;
                if mouse_injected(m.flags) {
                    &&& final(self)@ == v
                    &&& !out.suppress
                    &&& out.actions@.len() == 0
                } else if v.active is Some {
                    let client = active_client(v);
                    let dx = m.x.wrapping_sub(v.center_x);
                    let dy = m.y.wrapping_sub(v.center_y);
                    &&& final(self)@ == v
                    &&& out.suppress
                    &&& if m.msg == WM_MOUSEMOVE {
                        if !m.resetting && (dx != 0 || dy != 0) {
                            out.actions@ == seq![
                                HookAction::Send { client, event: Event::MouseMove { dx, dy } },
                                HookAction::SetCursor { x: v.center_x, y: v.center_y },
                            ]
                        } else {
                            out.actions@.len() == 0
                        }
                    } else {
                        match captured_mouse_event(m.msg, m.mouse_data) {
                            Some(e) => out.actions@ == seq![HookAction::Send { client, event: e }],
                            None => out.actions@.len() == 0,
                        }
                    }
                } else if m.msg == WM_MOUSEMOVE && m.resetting {
                    &&& final(self)@ == with_prev(v, m.x, m.y)
                    &&& !out.suppress
                    &&& out.actions@.len() == 0
                } else if m.msg == WM_MOUSEMOVE && v.portals.len() == 0 {
                    &&& final(self)@ == v
                    &&& !out.suppress
                    &&& out.actions@.len() == 0
                } else if m.msg == WM_MOUSEMOVE {
                    match first_entry_from(v, 0, m.x, m.y) {
                        None => {
                            &&& final(self)@ == with_prev(v, m.x, m.y)
                            &&& !out.suppress
                            &&& out.actions@.len() == 0
                        },
                        Some((i, e)) => {
                            &&& final(self)@ == entered(with_prev(v, m.x, m.y), i, e)
                            &&& out.suppress
                            &&& out.actions@ == enter_actions(v, i, e)
                        },
                    }
                } else {
                    &&& final(self)@ == v
                    &&& !out.suppress
                    &&& out.actions@.len() == 0
                }
            }),
    {
        let mut actions: Vec<HookAction> = Vec::new();
        if m.flags & 0x01 != 0 {
            return HookOutcome { suppress: false, actions };
        }
        if let Some(i) = self.active {
            let client = self.portals[i].client;
            if m.msg == WM_MOUSEMOVE {
                if !m.resetting {
                    let dx = m.x.wrapping_sub(self.center_x);
                    let dy = m.y.wrapping_sub(self.center_y);
                    if dx != 0 || dy != 0 {
                        actions.push(HookAction::Send { client, event: Event::MouseMove { dx, dy } });
                        actions.push(HookAction::SetCursor { x: self.center_x, y: self.center_y });
                    }
                }
            } else if let Some(e) = mouse_event_for(m.msg, m.mouse_data) {
                actions.push(HookAction::Send { client, event: e });
            }
            return HookOutcome { suppress: true, actions };
        }
        if m.msg == WM_MOUSEMOVE {
            if m.resetting {
                self.set_prev(m.x, m.y);
            } else if self.portals.len() > 0 {
                let found = self.find_entry(m.x, m.y);
                let ghost v = self@;
                self.set_prev(m.x, m.y);
                if let Some((i, e)) = found {
                    let acts = self.enter_capture(i, e);
                    return HookOutcome { suppress: true, actions: acts };
                }
            }
        }
        HookOutcome { suppress: false, actions }
    }

    /// The connection to `client` dropped: if input was routed there, stop
    /// capturing, show the cursor and bring it back to the park position.
    pub fn release_capture_on_disconnect(&mut self, client: usize) -> (acts: Vec<HookAction>)
        requires
            old(self).wf(),
        ensures
            final(self).wf(),
            ({
                let v = old(self)@;
                if v.active is Some && active_client(v) == client {
                    &&& final(self)@ == with_prev(released(v), v.center_x, v.center_y)
                    &&& acts@ == seq![
                        HookAction::ShowCursor { show: true },
                        HookAction::SetCursor { x: v.center_x, y: v.center_y },
                    ]
                } else {
                    final(self)@ == v && acts@.len() == 0
                }
            }),
    {
        let mut acts: Vec<HookAction> = Vec::new();
        match self.active {
            Some(i) => {
                if self.portals[i].client != client {
                    return acts;
                }
            },
            None => {
                return acts;
            },
        }
        let _ = self.release();
        let (cx, cy) = (self.center_x, self.center_y);
        self.set_prev(cx, cy);
        acts.push(HookAction::ShowCursor { show: true });
        acts.push(HookAction::SetCursor { x: cx, y: cy });
        acts
    }

    /// Where control returns when `client` reports its cursor pushed past
    /// `edge`: `None` unless input is routed to `client` and that edge faces
    /// the host.
    pub fn return_span(&self, client: usize, edge: u8) -> (r: Option<ReturnSpan>)
        requires
            self.wf(),
        ensures
            ({
                let v = self@;
                if v.active is Some && active_client(v) == client {
                    r == return_span_of(v.portals[v.active->0].layout, edge)
                } else {
                    r is None
                }
            }),
    {
        match self.active {
            Some(i) => {
                if self.portals[i].client != client {
                    None
                } else {
                    return_span_for(self.portals[i].layout, edge)
                }
            },
            None => None,
        }
    }

    /// Hand control back with the host cursor at (x, y): tell the client to
    /// release its held keys and that capture ended, then show the cursor there.
    pub fn release_capture_to(&mut self, x: i32, y: i32) -> (acts: Vec<HookAction>)
        requires
            old(self).wf(),
            old(self)@.active is Some,
        ensures
            final(self).wf(),
            final(self)@ == with_prev(released(old(self)@), x, y),
            acts@.len() >= 2,
            acts@[acts@.len() - 2] == (HookAction::ShowCursor { show: true }),
            acts@[acts@.len() - 1] == (HookAction::SetCursor { x, y }),
            sync_then_end(acts@.subrange(0, acts@.len() - 2), 0, active_client(old(self)@), old(self)@.held),
    {
        let ghost v = self@;
        let client = self.portals[self.active.unwrap()].client;
        let held = self.release();
        let mut acts: Vec<HookAction> = Vec::new();
        Self::push_sync_then_end(&mut acts, client, held, Ghost(v.held));
        let ghost head = acts@;
        acts.push(HookAction::ShowCursor { show: true });
        acts.push(HookAction::SetCursor { x, y });
        assert(acts@.subrange(0, acts@.len() - 2) =~= head);
        self.set_prev(x, y);
        acts
    }
}

} // verus!

verus! {

/// Capture only ever starts toward a connected client: the portal a move
/// enters is one whose client is connected.
pub proof fn lemma_entry_needs_connection(v: HookView, start: int, x: i32, y: i32)
    requires
        v.portals.len() == v.connected.len(),
    ensures
        first_entry_from(v, start, x, y) matches Some((i, e)) ==> 0 <= i < v.portals.len()
            && v.connected[i] && portal_entry(v.portals[i].layout, true, v.prev_valid, v.prev_x, v.prev_y, x, y) == Some(e),
    decreases v.portals.len() - start,
{
    if 0 <= start < v.portals.len() {
        lemma_entry_needs_connection(v, start + 1, x, y);
    }
}

/// With no client connected, a move enters no client, so outside capture it
/// neither starts capturing nor sends anything.
pub proof fn lemma_no_connection_no_entry(v: HookView, start: int, x: i32, y: i32)
    requires
        forall|i: int| 0 <= i < v.portals.len() ==> !v.connected[i],
    ensures
        first_entry_from(v, start, x, y) is None,
    decreases v.portals.len() - start,
{
    if 0 <= start < v.portals.len() {
        assert(!v.connected[start]);
        lemma_no_connection_no_entry(v, start + 1, x, y);
    }
}

/// What a captured button or wheel message is sent as. Each button's down and
/// up messages carry the same evdev button (left 0x110, right 0x111, middle
/// 0x112, side buttons 0x113 and 0x114 by the message's high word), pressed
/// on the down message and released on the up message. A wheel message is a
/// vertical scroll of the signed high word divided by 120, rounded toward
/// zero: the notches times 120 never exceed the raw amount, the next notch
/// would, and the sign is kept; less than one notch sends nothing.
pub proof fn lemma_captured_buttons_and_wheel(d: u32)
    ensures
        captured_mouse_event(WM_LBUTTONDOWN, d) == Some(Event::MouseButton { btn: 0x110, pressed: true }),
        captured_mouse_event(WM_LBUTTONUP, d) == Some(Event::MouseButton { btn: 0x110, pressed: false }),
        captured_mouse_event(WM_RBUTTONDOWN, d) == Some(Event::MouseButton { btn: 0x111, pressed: true }),
        captured_mouse_event(WM_RBUTTONUP, d) == Some(Event::MouseButton { btn: 0x111, pressed: false }),
        captured_mouse_event(WM_MBUTTONDOWN, d) == Some(Event::MouseButton { btn: 0x112, pressed: true }),
        captured_mouse_event(WM_MBUTTONUP, d) == Some(Event::MouseButton { btn: 0x112, pressed: false }),
        captured_mouse_event(WM_XBUTTONDOWN, d) == Some(Event::MouseButton {
            btn: if d / 65536 == 2 { 0x114 } else { 0x113 },
            pressed: true,
        }),
        captured_mouse_event(WM_XBUTTONUP, d) == Some(Event::MouseButton {
            btn: if d / 65536 == 2 { 0x114 } else { 0x113 },
            pressed: false,
        }),
        ({
            let raw: int = if d / 65536 >= 32768 { d / 65536 - 65536 } else { (d / 65536) as int };
            &&& (-120 < raw < 120) <==> captured_mouse_event(WM_MOUSEWHEEL, d) is None
            &&& captured_mouse_event(WM_MOUSEWHEEL, d) matches Some(ev) ==> (ev matches Event::Scroll { dx, dy } && {
                &&& dx == 0
                &&& raw >= 120 ==> (dy > 0 && dy * 120 <= raw < dy * 120 + 120)
                &&& raw <= -120 ==> (dy < 0 && dy * 120 - 120 < raw <= dy * 120)
            })
        }),
{
    let raw: int = if d / 65536 >= 32768 { d / 65536 - 65536 } else { (d / 65536) as int };
    assert(-32768 <= raw < 32768);
    if raw >= 0 {
        assert(raw / 120 * 120 <= raw < raw / 120 * 120 + 120);
    } else {
        assert((-raw) / 120 * 120 <= -raw < (-raw) / 120 * 120 + 120);
    }
}

/// How an entry past `side` of `r` must look for a cursor at (x, y): through
/// the client edge facing the host (right side: the client's left edge; left
/// side: its right edge; bottom: its top; top: its bottom), at the cursor's y
/// over the rectangle's height on a left or right side, and at its x over the
/// rectangle's width on a bottom or top side.
pub open spec fn entry_along_side(side: u8, r: Rect, x: i32, y: i32, e: Entry) -> bool {
    &&& side <= 3
    &&& e.came_from == 0
    &&& (side == 0 || side == 1) ==> (e.along == y && e.lo == r.top && e.hi == r.bottom)
    &&& (side == 2 || side == 3) ==> (e.along == x && e.lo == r.left && e.hi == r.right)
    &&& side == 0 ==> e.edge == EDGE_LEFT
    &&& side == 1 ==> e.edge == EDGE_RIGHT
    &&& side == 2 ==> e.edge == EDGE_TOP
    &&& side == 3 ==> e.edge == EDGE_BOTTOM
}

/// Where a move enters a client. Past a screen edge or a monitor side, the
/// entry runs along that side at the cursor's coordinate on it (see
/// [`entry_along_side`]). Across the gap between side-by-side monitors the
/// entry is at the cursor's y, inside the band of heights both monitors
/// share, through the client's left edge when moving right and its right
/// edge when moving left; between stacked monitors likewise with x, through
/// the client's top edge when moving down and its bottom edge when moving up.
/// Nothing is entered while the client is not connected.
pub proof fn lemma_entry_position(
    layout: Layout,
    connected: bool,
    prev_valid: bool,
    px: i32,
    py: i32,
    x: i32,
    y: i32,
)
    ensures
        portal_entry(layout, connected, prev_valid, px, py, x, y) matches Some(e) ==> {
            &&& connected
            &&& match layout {
                Layout::Edge { side, screen } => entry_along_side(side, screen, x, y, e),
                Layout::MonitorSide { rect, side } => entry_along_side(side, rect, x, y, e),
                Layout::Between { left_mon, right_mon, boundary_x } => {
                    &&& prev_valid
                    &&& e.along == y
                    &&& e.lo == (if left_mon.top >= right_mon.top { left_mon.top } else { right_mon.top })
                    &&& e.hi == (if left_mon.bottom <= right_mon.bottom { left_mon.bottom } else { right_mon.bottom })
                    &&& e.lo <= y < e.hi
                    &&& ((e.edge == EDGE_LEFT && e.came_from == 0 && px < boundary_x && boundary_x <= x)
                        || (e.edge == EDGE_RIGHT && e.came_from == 1 && x < boundary_x && boundary_x <= px))
                },
                Layout::Stacked { top_mon, bottom_mon, boundary_y } => {
                    &&& prev_valid
                    &&& e.along == x
                    &&& e.lo == (if top_mon.left >= bottom_mon.left { top_mon.left } else { bottom_mon.left })
                    &&& e.hi == (if top_mon.right <= bottom_mon.right { top_mon.right } else { bottom_mon.right })
                    &&& e.lo <= x < e.hi
                    &&& ((e.edge == EDGE_TOP && e.came_from == 0 && py < boundary_y && boundary_y <= y)
                        || (e.edge == EDGE_BOTTOM && e.came_from == 1 && y < boundary_y && boundary_y <= py))
                },
            }
        },
{
}

/// Starting capture for portal `i` entered as `e`: the cursor is hidden and
/// parked, the portal's client is told capture started, and then where the
/// cursor came in: the entry's edge and position, with the span it runs over.
pub proof fn lemma_enter_tells_the_entry(v: HookView, i: int, e: Entry)
    ensures
        enter_actions(v, i, e).len() == 4,
        enter_actions(v, i, e)[0] == (HookAction::ShowCursor { show: false }),
        enter_actions(v, i, e)[1] == (HookAction::SetCursor { x: v.center_x, y: v.center_y }),
        enter_actions(v, i, e)[2] == (HookAction::Send { client: v.portals[i].client, event: Event::CaptureStart }),
        enter_actions(v, i, e)[3] == (HookAction::EnterAt {
            client: v.portals[i].client,
            edge: e.edge,
            along: e.along,
            lo: e.lo,
            hi: e.hi,
        }),
{
}

/// How control handed back across `side` of `r` through client edge `edge`
/// must land: only the client edge facing the host hands it back; the host
/// cursor comes back `RETURN_MARGIN` inside that side, at the reported
/// position along it, which runs over the rectangle's height for a left or
/// right side and over its width for a bottom or top side.
pub open spec fn return_across_side(side: u8, r: Rect, edge: u8, s: ReturnSpan) -> bool {
    &&& (side == 0 && edge == EDGE_LEFT) || (side == 1 && edge == EDGE_RIGHT)
        || (side == 2 && edge == EDGE_TOP) || (side == 3 && edge == EDGE_BOTTOM)
    &&& (side == 0 || side == 1) ==> (s.fixed_is_x && s.lo == r.top && s.hi == r.bottom)
    &&& (side == 2 || side == 3) ==> (!s.fixed_is_x && s.lo == r.left && s.hi == r.right)
    &&& (side == 0 && r.right - 1 - RETURN_MARGIN >= i32::MIN) ==> s.fixed == r.right - 1 - RETURN_MARGIN
    &&& (side == 1 && r.left + RETURN_MARGIN <= i32::MAX) ==> s.fixed == r.left + RETURN_MARGIN
    &&& (side == 2 && r.bottom - 1 - RETURN_MARGIN >= i32::MIN) ==> s.fixed == r.bottom - 1 - RETURN_MARGIN
    &&& (side == 3 && r.top + RETURN_MARGIN <= i32::MAX) ==> s.fixed == r.top + RETURN_MARGIN
}

/// Where control comes back. Past a screen edge or monitor side, exactly the
/// client edge facing the host hands control back, and the host cursor lands
/// just inside that side at the reported position along it (see
/// [`return_across_side`]); if the rectangle is wider (or taller) than twice
/// the margin, that point is inside the rectangle. Across a gap, only the
/// client's left and right (or top and bottom) edges hand control back, onto
/// the monitor on the side the cursor leaves toward, over the shared band.
pub proof fn lemma_return_position(layout: Layout, edge: u8)
    ensures
        match layout {
            Layout::Edge { side, screen } => {
                &&& return_span_of(layout, edge) is Some <==> ((side == 0 && edge == EDGE_LEFT)
                    || (side == 1 && edge == EDGE_RIGHT) || (side == 2 && edge == EDGE_TOP)
                    || (side == 3 && edge == EDGE_BOTTOM))
                &&& return_span_of(layout, edge) matches Some(s) ==> return_across_side(side, screen, edge, s)
            },
            Layout::MonitorSide { rect, side } => {
                &&& return_span_of(layout, edge) is Some <==> ((side == 0 && edge == EDGE_LEFT)
                    || (side == 1 && edge == EDGE_RIGHT) || (side == 2 && edge == EDGE_TOP)
                    || (side == 3 && edge == EDGE_BOTTOM))
                &&& return_span_of(layout, edge) matches Some(s) ==> {
                    &&& return_across_side(side, rect, edge, s)
                    &&& (s.fixed_is_x && rect.left + 2 * RETURN_MARGIN < rect.right) ==> rect.left <= s.fixed < rect.right
                    &&& (!s.fixed_is_x && rect.top + 2 * RETURN_MARGIN < rect.bottom) ==> rect.top <= s.fixed < rect.bottom
                }
            },
            Layout::Between { left_mon, right_mon, boundary_x } => {
                &&& return_span_of(layout, edge) is Some <==> (edge == EDGE_LEFT || edge == EDGE_RIGHT)
                &&& return_span_of(layout, edge) matches Some(s) ==> {
                    &&& s.fixed_is_x
                    &&& s.lo == (if left_mon.top >= right_mon.top { left_mon.top } else { right_mon.top })
                    &&& s.hi == (if left_mon.bottom <= right_mon.bottom { left_mon.bottom } else { right_mon.bottom })
                    &&& (edge == EDGE_RIGHT && boundary_x + RETURN_MARGIN <= i32::MAX) ==> s.fixed == boundary_x + RETURN_MARGIN
                    &&& (edge == EDGE_LEFT && boundary_x - 1 - RETURN_MARGIN >= i32::MIN) ==> s.fixed == boundary_x - 1 - RETURN_MARGIN
                }
            },
            Layout::Stacked { top_mon, bottom_mon, boundary_y } => {
                &&& return_span_of(layout, edge) is Some <==> (edge == EDGE_TOP || edge == EDGE_BOTTOM)
                &&& return_span_of(layout, edge) matches Some(s) ==> {
                    &&& !s.fixed_is_x
                    &&& s.lo == (if top_mon.left >= bottom_mon.left { top_mon.left } else { bottom_mon.left })
                    &&& s.hi == (if top_mon.right <= bottom_mon.right { top_mon.right } else { bottom_mon.right })
                    &&& (edge == EDGE_BOTTOM && boundary_y + RETURN_MARGIN <= i32::MAX) ==> s.fixed == boundary_y + RETURN_MARGIN
                    &&& (edge == EDGE_TOP && boundary_y - 1 - RETURN_MARGIN >= i32::MIN) ==> s.fixed == boundary_y - 1 - RETURN_MARGIN
                }
            },
        },
{
}

/// The client edge the cursor enters through is an edge that hands control
/// back; for a gap between two monitors, control comes back on the side the
/// cursor came from.
pub proof fn lemma_entry_edge_returns(
    layout: Layout,
    connected: bool,
    prev_valid: bool,
    px: i32,
    py: i32,
    x: i32,
    y: i32,
)
    requires
        portal_entry(layout, connected, prev_valid, px, py, x, y) is Some,
    ensures
        ({
            let e = portal_entry(layout, connected, prev_valid, px, py, x, y)->0;
            let r = return_span_of(layout, e.edge);
            &&& r is Some
            &&& match layout {
                Layout::Between { boundary_x, .. } => i32::MIN + 17 <= boundary_x <= i32::MAX - 16
                    ==> (e.came_from == 0 <==> r->0.fixed < boundary_x),
                Layout::Stacked { boundary_y, .. } => i32::MIN + 17 <= boundary_y <= i32::MAX - 16
                    ==> (e.came_from == 0 <==> r->0.fixed < boundary_y),
                _ => true,
            }
        }),
{
}

/// Handing control back never captures again at the return point itself:
/// a cursor resting where the return placed it does not re-enter that client.
pub proof fn lemma_return_point_stays(layout: Layout, edge: u8, along: i32, connected: bool)
    requires
        return_span_of(layout, edge) is Some,
        match layout {
            Layout::Edge { screen, .. } => i32::MIN + 17 <= screen.left && screen.right <= i32::MAX
                && i32::MIN + 17 <= screen.top && screen.left <= i32::MAX - 16 && screen.top <= i32::MAX - 16
                && i32::MIN + 17 <= screen.right && i32::MIN + 17 <= screen.bottom,
            Layout::MonitorSide { rect, .. } => i32::MIN + 17 <= rect.left && i32::MIN + 17 <= rect.top
                && rect.left <= i32::MAX - 16 && rect.top <= i32::MAX - 16
                && i32::MIN + 17 <= rect.right && i32::MIN + 17 <= rect.bottom,
            Layout::Between { boundary_x, .. } => i32::MIN + 17 <= boundary_x <= i32::MAX - 16,
            Layout::Stacked { boundary_y, .. } => i32::MIN + 17 <= boundary_y <= i32::MAX - 16,
        },
    ensures
        ({
            let r = return_span_of(layout, edge)->0;
            let (px, py) = if r.fixed_is_x { (r.fixed, along) } else { (along, r.fixed) };
            portal_entry(layout, connected, true, px, py, px, py) is None
        }),
{
}

} // verus!
