//! Client-side cursor tracking: an estimate of where the injected cursor is
//! on the client screen, so that pushing past an edge hands control back to
//! the host.
//!
//! The estimate accumulates motion deltas and is periodically re-synced to a
//! sample of the real cursor (never while an edge is being pushed). Positions
//! are whole pixels. Times are milliseconds on a monotonic clock chosen by the
//! caller.
use vstd::prelude::*;
use crate::protocol::{EDGE_BOTTOM, EDGE_LEFT, EDGE_RIGHT, EDGE_TOP};

verus! {

/// Pixels of accumulated push past an edge before control is handed back.
pub const OVERSHOOT_THRESHOLD: i64 = 25;

/// How often (ms) the estimate adopts the latest cursor sample.
pub const RESYNC_INTERVAL_MS: u64 = 150;

/// After asking for a hand-back, wait this long (ms) before asking again.
pub const EDGE_COOLDOWN_MS: u64 = 250;

/// Marker for "no edge" while computing the dominant edge of a move.
pub const NO_EDGE: u8 = 255;

/// Result of one mouse move.
#[derive(Debug, Clone, Copy, PartialEq, Eq, Structural)]
pub enum MoveOutcome {
    /// Not tracking (no capture session).
    Idle,
    /// The estimate is inside the screen; any partial push is forgotten.
    Inside,
    /// The cursor pushes past an edge, not yet far enough.
    Pushing,
    /// The push past `edge` reached the threshold. The position along the
    /// edge is `num / den` (den >= 1); the caller decides with
    /// [`CursorTracker::confirm_edge`] whether to ask for the hand-back.
    EdgePushed { edge: u8, num: i64, den: i64 },
}

/// Abstract tracker state.
pub struct TrackerView {
    /// Focused monitor as (x, y, width, height).
    pub rect: (i32, i32, i32, i32),
    pub x: int,
    pub y: int,
    pub overshoot: int,
    pub overshoot_edge: u8,
    pub active: bool,
    pub last_sync: u64,
    pub last_edge_sent: Option<u64>,
}

/// Time since `then`, or 0 if the clock reads earlier.
pub open spec fn elapsed(now: u64, then: u64) -> int {
    if now >= then { now - then } else { 0 }
}

/// Smallest and largest x the cursor can take on the screen `r`.
pub open spec fn x_range(r: (i32, i32, i32, i32)) -> (int, int) {
    (r.0 as int, r.0.wrapping_add(r.2).wrapping_sub(1) as int)
}

/// Smallest and largest y the cursor can take on the screen `r`.
pub open spec fn y_range(r: (i32, i32, i32, i32)) -> (int, int) {
    (r.1 as int, r.1.wrapping_add(r.3).wrapping_sub(1) as int)
}

/// Position along the edge, as numerator and denominator (at least 1).
pub open spec fn along_edge(edge: u8, x: int, y: int, r: (i32, i32, i32, i32)) -> (int, int) {
    let (min_x, max_x) = x_range(r);
    let (min_y, max_y) = y_range(r);
    if edge == EDGE_LEFT || edge == EDGE_RIGHT {
        (y - min_y, if max_y - min_y >= 1 { max_y - min_y } else { 1 })
    } else {
        (x - min_x, if max_x - min_x >= 1 { max_x - min_x } else { 1 })
    }
}

/// Whether a hand-back request is still cooling down at `now`.
pub open spec fn edge_cooling(v: TrackerView, now: u64) -> bool {
    match v.last_edge_sent {
        Some(t) => elapsed(now, t) < EDGE_COOLDOWN_MS,
        None => false,
    }
}

/// Whether an edge push at `now` asks the host to take the cursor back: not
/// while a game holds the pointer, nor while the last request cools down.
pub open spec fn confirm_sends(v: TrackerView, pointer_locked: bool, now: u64) -> bool {
    !pointer_locked && !edge_cooling(v, now)
}

pub struct CursorTracker {
    rect: (i32, i32, i32, i32),
    x: i64,
    y: i64,
    overshoot: i64,
    overshoot_edge: u8,
    active: bool,
    last_sync: u64,
    last_edge_sent: Option<u64>,
}

impl CursorTracker {
    pub closed spec fn view(&self) -> TrackerView {
        TrackerView {
            rect: self.rect,
            x: self.x as int,
            y: self.y as int,
            overshoot: self.overshoot as int,
            overshoot_edge: self.overshoot_edge,
            active: self.active,
            last_sync: self.last_sync,
            last_edge_sent: self.last_edge_sent,
        }
    }

    /// The estimate is a screen coordinate and a pending push stays below the threshold.
    pub closed spec fn wf(&self) -> bool {
        &&& i32::MIN <= self.x <= i32::MAX
        &&& i32::MIN <= self.y <= i32::MAX
        &&& 0 <= self.overshoot < OVERSHOOT_THRESHOLD
    }

    /// Not tracking, on a 1920x1080 screen at the origin, estimate at (0, 0).
    pub fn new(now_ms: u64) -> (r: Self)
        ensures
            r.wf(),
            r@ == (TrackerView {
                rect: (0, 0, 1920, 1080),
                x: 0,
                y: 0,
                overshoot: 0,
                overshoot_edge: EDGE_RIGHT,
                active: false,
                last_sync: now_ms,
                last_edge_sent: None,
            }),
    {
        CursorTracker {
            rect: (0, 0, 1920, 1080),
            x: 0,
            y: 0,
            overshoot: 0,
            overshoot_edge: EDGE_RIGHT,
            active: false,
            last_sync: now_ms,
            last_edge_sent: None,
        }
    }

    /// Whether a capture session is being tracked.
    pub fn is_active(&self) -> (r: bool)
        ensures
            r == self@.active,
    {
        self.active
    }

    /// Adopt a freshly read monitor geometry, when one could be read.
    pub fn refresh_rect(&mut self, rect: Option<(i32, i32, i32, i32)>)
        requires
            old(self).wf(),
        ensures
            final(self).wf(),
            final(self)@ == (TrackerView {
                rect: match rect {
                    Some(r) => r,
                    None => old(self)@.rect,
                },
                ..old(self)@
            }),
    {
        if let Some(r) = rect {
            self.rect = r;
        }
    }

    /// A capture session starts: adopt the monitor geometry and cursor
    /// position when known, clear any push, and start tracking. Returns the
    /// cursor position to publish as the latest sample (`None`: no valid sample).
    pub fn on_capture_start(
        &mut self,
        rect: Option<(i32, i32, i32, i32)>,
        cursor: Option<(i32, i32)>,
        now_ms: u64,
    ) -> (sample: Option<(i32, i32)>)
        requires
            old(self).wf(),
        ensures
            final(self).wf(),
            sample == cursor,
            final(self)@ == (TrackerView {
                rect: match rect {
                    Some(r) => r,
                    None => old(self)@.rect,
                },
                x: match cursor {
                    Some(c) => c.0 as int,
                    None => old(self)@.x,
                },
                y: match cursor {
                    Some(c) => c.1 as int,
                    None => old(self)@.y,
                },
                overshoot: 0,
                active: true,
                last_sync: now_ms,
                last_edge_sent: None,
                ..old(self)@
            }),
    {
        if let Some(r) = rect {
            self.rect = r;
        }
        if let Some((cx, cy)) = cursor {
            self.x = cx as i64;
            self.y = cy as i64;
        }
        self.overshoot = 0;
        self.active = true;
        self.last_sync = now_ms;
        self.last_edge_sent = None;
        cursor
    }

    /// Length of the span a cursor entering through `edge` is placed along
    /// (height - 1 for left/right, width - 1 for top/bottom, wrapping);
    /// `None` for an unknown edge.
    pub fn enter_span(&self, edge: u8) -> (r: Option<i32>)
        ensures
            (edge == EDGE_LEFT || edge == EDGE_RIGHT) ==> r == Some(self@.rect.3.wrapping_sub(1)),
            (edge == EDGE_TOP || edge == EDGE_BOTTOM) ==> r == Some(self@.rect.2.wrapping_sub(1)),
            !(edge == EDGE_LEFT || edge == EDGE_RIGHT || edge == EDGE_TOP || edge == EDGE_BOTTOM) ==> r is None,
    {
        if edge == EDGE_LEFT || edge == EDGE_RIGHT {
            Some(self.rect.3.wrapping_sub(1))
        } else if edge == EDGE_TOP || edge == EDGE_BOTTOM {
            Some(self.rect.2.wrapping_sub(1))
        } else {
            None
        }
    }

    /// The host says the cursor enters through `edge`, `along` pixels along
    /// it: place the estimate just inside that edge and return where to warp
    /// the real cursor (`None` for an unknown edge, which changes nothing).
    pub fn on_enter_at(&mut self, edge: u8, along: i32) -> (target: Option<(i32, i32)>)
        requires
            old(self).wf(),
        ensures
            final(self).wf(),
            ({
                let (rx, ry, rw, rh) = old(self)@.rect;
                let t = if edge == EDGE_LEFT {
                    Some((rx.wrapping_add(1), ry.wrapping_add(along)))
                } else if edge == EDGE_RIGHT {
                    Some((rx.wrapping_add(rw).wrapping_sub(2), ry.wrapping_add(along)))
                } else if edge == EDGE_TOP {
                    Some((rx.wrapping_add(along), ry.wrapping_add(1)))
                } else if edge == EDGE_BOTTOM {
                    Some((rx.wrapping_add(along), ry.wrapping_add(rh).wrapping_sub(2)))
                } else {
                    None
                };
                &&& target == t
                &&& match t {
                    Some(p) => final(self)@ == (TrackerView { x: p.0 as int, y: p.1 as int, overshoot: 0, ..old(self)@ }),
                    None => final(self)@ == old(self)@,
                }
            }),
    {
        let (rx, ry, rw, rh) = self.rect;
        let t = if edge == EDGE_LEFT {
            (rx.wrapping_add(1), ry.wrapping_add(along))
        } else if edge == EDGE_RIGHT {
            (rx.wrapping_add(rw).wrapping_sub(2), ry.wrapping_add(along))
        } else if edge == EDGE_TOP {
            (rx.wrapping_add(along), ry.wrapping_add(1))
        } else if edge == EDGE_BOTTOM {
            (rx.wrapping_add(along), ry.wrapping_add(rh).wrapping_sub(2))
        } else {
            return None;
        };
        self.x = t.0 as i64;
        self.y = t.1 as i64;
        self.overshoot = 0;
        Some(t)
    }

    /// The capture session ended: stop tracking.
    pub fn on_capture_end(&mut self)
        requires
            old(self).wf(),
        ensures
            final(self).wf(),
            final(self)@ == (TrackerView { active: false, ..old(self)@ }),
    {
        self.active = false;
    }

    /// One relative move. While tracking: re-sync the estimate to `sample`
    /// when no push is pending and the last sync is at least
    /// `RESYNC_INTERVAL_MS` old; add the delta; clamp the estimate into the
    /// screen and find the edge pushed hardest this move (horizontal first,
    /// a vertical push wins only when strictly larger). Back inside, the push
    /// is forgotten; otherwise it accumulates across edges, and reaching
    /// `OVERSHOOT_THRESHOLD` reports the edge and resets the push.
    pub fn on_mouse_move(&mut self, dx: i32, dy: i32, sample: Option<(i32, i32)>, now_ms: u64) -> (out: MoveOutcome)
        requires
            old(self).wf(),
        ensures
            final(self).wf(),
            old(self)@.active && x_range(old(self)@.rect).0 <= x_range(old(self)@.rect).1 && y_range(old(self)@.rect).0
                <= y_range(old(self)@.rect).1 ==> {
                &&& x_range(old(self)@.rect).0 <= final(self)@.x <= x_range(old(self)@.rect).1
                &&& y_range(old(self)@.rect).0 <= final(self)@.y <= y_range(old(self)@.rect).1
            },
            ({
                let v = old(self)@;
                let resync = v.overshoot == 0 && elapsed(now_ms, v.last_sync) >= RESYNC_INTERVAL_MS && sample is Some;
                let bx: int = if resync { (sample->0).0 as int } else { v.x };
                let by: int = if resync { (sample->0).1 as int } else { v.y };
                let last_sync = if resync { now_ms } else { v.last_sync };
                let nx = bx + dx;
                let ny = by + dy;
                let (min_x, max_x) = x_range(v.rect);
                let (min_y, max_y) = y_range(v.rect);
                let (ex, hx, cx) = if nx < min_x {
                    (min_x - nx, EDGE_LEFT, min_x)
                } else if nx > max_x {
                    (nx - max_x, EDGE_RIGHT, max_x)
                } else {
                    (0, NO_EDGE, nx)
                };
                let (excess, edge, cy) = if ny < min_y {
                    if min_y - ny > ex { (min_y - ny, EDGE_TOP, min_y) } else { (ex, hx, min_y) }
                } else if ny > max_y {
                    if ny - max_y > ex { (ny - max_y, EDGE_BOTTOM, max_y) } else { (ex, hx, max_y) }
                } else {
                    (ex, hx, ny)
                };
                let total = v.overshoot + excess;
                if !v.active {
                    final(self)@ == v && out == MoveOutcome::Idle
                } else if edge == NO_EDGE {
                    &&& final(self)@ == (TrackerView { x: cx, y: cy, overshoot: 0, last_sync, ..v })
                    &&& out == MoveOutcome::Inside
                } else if total >= OVERSHOOT_THRESHOLD {
                    let (num, den) = along_edge(edge, cx, cy, v.rect);
                    &&& final(self)@ == (TrackerView { x: cx, y: cy, overshoot: 0, overshoot_edge: edge, last_sync, ..v })
                    &&& out == (MoveOutcome::EdgePushed { edge, num: num as i64, den: den as i64 })
                } else {
                    &&& final(self)@ == (TrackerView { x: cx, y: cy, overshoot: total, overshoot_edge: edge, last_sync, ..v })
                    &&& out == MoveOutcome::Pushing
                }
            }),
    {
        if !self.active {
            return MoveOutcome::Idle;
        }
        let elapsed_ms: u64 = if now_ms >= self.last_sync { now_ms - self.last_sync } else { 0 };
        if self.overshoot == 0 && elapsed_ms >= RESYNC_INTERVAL_MS {
            if let Some((sx, sy)) = sample {
                self.x = sx as i64;
                self.y = sy as i64;
                self.last_sync = now_ms;
            }
        }
        self.x = self.x + dx as i64;
        self.y = self.y + dy as i64;
        let (rx, ry, rw, rh) = self.rect;
        let min_x = rx as i64;
        let max_x = rx.wrapping_add(rw).wrapping_sub(1) as i64;
        let min_y = ry as i64;
        let max_y = ry.wrapping_add(rh).wrapping_sub(1) as i64;
        let mut excess: i64 = 0;
        let mut edge: u8 = NO_EDGE;
        if self.x < min_x {
            excess = min_x - self.x;
            edge = EDGE_LEFT;
            self.x = min_x;
        } else if self.x > max_x {
            excess = self.x - max_x;
            edge = EDGE_RIGHT;
            self.x = max_x;
        }
        if self.y < min_y {
            if min_y - self.y > excess {
                excess = min_y - self.y;
                edge = EDGE_TOP;
            }
            self.y = min_y;
        } else if self.y > max_y {
            if self.y - max_y > excess {
                excess = self.y - max_y;
                edge = EDGE_BOTTOM;
            }
            self.y = max_y;
        }
        if edge == NO_EDGE {
            self.overshoot = 0;
            return MoveOutcome::Inside;
        }
        self.overshoot_edge = edge;
        self.overshoot = self.overshoot + excess;
        if self.overshoot >= OVERSHOOT_THRESHOLD {
            self.overshoot = 0;
            let (num, den) = if edge == EDGE_LEFT || edge == EDGE_RIGHT {
                (self.y - min_y, if max_y - min_y >= 1 { max_y - min_y } else { 1 })
            } else {
                (self.x - min_x, if max_x - min_x >= 1 { max_x - min_x } else { 1 })
            };
            return MoveOutcome::EdgePushed { edge, num, den };
        }
        MoveOutcome::Pushing
    }

    /// After an edge push: ask the host to take the cursor back unless a game
    /// holds the pointer (`pointer_locked`) or the last request is younger than
    /// `EDGE_COOLDOWN_MS`. Returns whether to send the request (and records its time).
    pub fn confirm_edge(&mut self, pointer_locked: bool, now_ms: u64) -> (send: bool)
        requires
            old(self).wf(),
        ensures
            final(self).wf(),
            send == confirm_sends(old(self)@, pointer_locked, now_ms),
            final(self)@ == (if send { TrackerView { last_edge_sent: Some(now_ms), ..old(self)@ } } else { old(self)@ }),
    {
        if pointer_locked {
            return false;
        }
        let cooling = match self.last_edge_sent {
            Some(t) => (if now_ms >= t { now_ms - t } else { 0 }) < EDGE_COOLDOWN_MS,
            None => false,
        };
        if cooling {
            return false;
        }
        self.last_edge_sent = Some(now_ms);
        true
    }
}

/// Two hand-back requests sent in a row, with a clock that does not run
/// backwards, are at least `EDGE_COOLDOWN_MS` apart.
pub proof fn lemma_requests_spaced(v: TrackerView, l1: bool, t1: u64, l2: bool, t2: u64)
    requires
        confirm_sends(v, l1, t1),
        t1 <= t2,
        confirm_sends(TrackerView { last_edge_sent: Some(t1), ..v }, l2, t2),
    ensures
        t2 - t1 >= EDGE_COOLDOWN_MS,
{
}

} // verus!
