//! Live connections: what the host and the client do with each event while a
//! connection is up, and how long the host waits before dialing again.
//!
//! The sockets, timers and clipboard live with the caller; these functions
//! take what happened (an event, a read outcome) and say what to do next.
use vstd::prelude::*;
use crate::protocol::Event;
use vstd::arithmetic::power2::{lemma2_to64, pow2};

verus! {

/// Wait before the first reconnection attempt, and after a connection ends.
pub const INITIAL_BACKOFF_MS: u64 = 1000;

/// The wait between failed attempts never exceeds this.
pub const MAX_BACKOFF_MS: u64 = 30000;

/// The wait after a failed attempt that waited `ms`: doubled, capped at
/// [`MAX_BACKOFF_MS`].
pub open spec fn doubled_backoff(ms: u64) -> u64 {
    if 2 * ms < MAX_BACKOFF_MS { (2 * ms) as u64 } else { MAX_BACKOFF_MS }
}

/// `min(2 * ms, 30000)`, computed without overflow.
pub fn next_backoff(ms: u64) -> (r: u64)
    ensures
        r == doubled_backoff(ms),
{
    if ms < MAX_BACKOFF_MS / 2 {
        ms * 2
    } else {
        MAX_BACKOFF_MS
    }
}

/// The host's reconnection schedule for one client.
pub struct Reconnect {
    pub backoff_ms: u64,
}

impl Reconnect {
    /// Before the first attempt: wait the initial amount after a failure.
    pub fn new() -> (r: Self)
        ensures
            r.backoff_ms == INITIAL_BACKOFF_MS,
            r.backoff_ms == backoff_after(0),
    {
        Reconnect { backoff_ms: INITIAL_BACKOFF_MS }
    }

    /// A connection attempt failed: returns how long to sleep, and doubles
    /// the next wait (capped).
    pub fn on_connect_failed(&mut self) -> (sleep_ms: u64)
        ensures
            sleep_ms == old(self).backoff_ms,
            final(self).backoff_ms == doubled_backoff(old(self).backoff_ms),
            forall|n: nat| old(self).backoff_ms == #[trigger] backoff_after(n)
                ==> final(self).backoff_ms == backoff_after(n + 1),
    {
        let s = self.backoff_ms;
        self.backoff_ms = next_backoff(s);
        s
    }

    /// A connection was made: the schedule starts over.
    pub fn on_connected(&mut self)
        ensures
            final(self).backoff_ms == INITIAL_BACKOFF_MS,
            final(self).backoff_ms == backoff_after(0),
    {
        self.backoff_ms = INITIAL_BACKOFF_MS;
    }

    /// A connection ended: how long to sleep before dialing again.
    pub fn on_disconnected(&self) -> (sleep_ms: u64)
        ensures
            sleep_ms == self.backoff_ms,
    {
        self.backoff_ms
    }
}

/// Every wait of the schedule stays between the initial one and the cap,
/// and a failure never shortens it.
pub proof fn lemma_backoff_bounded(ms: u64)
    requires
        INITIAL_BACKOFF_MS <= ms <= MAX_BACKOFF_MS,
    ensures
        INITIAL_BACKOFF_MS <= doubled_backoff(ms) <= MAX_BACKOFF_MS,
        ms <= doubled_backoff(ms),
{
}

/// Wait after `n` consecutive failures from the initial one.
pub open spec fn backoff_after(n: nat) -> u64
    decreases n,
{
    if n == 0 {
        INITIAL_BACKOFF_MS
    } else {
        doubled_backoff(backoff_after((n - 1) as nat))
    }
}

/// Consecutive failures wait 1 s, 2 s, 4 s, 8 s, 16 s, then 30 s for good.
pub proof fn lemma_backoff_schedule(n: nat)
    ensures
        backoff_after(0) == 1000,
        backoff_after(1) == 2000,
        backoff_after(2) == 4000,
        backoff_after(3) == 8000,
        backoff_after(4) == 16000,
        n >= 5 ==> backoff_after(n) == MAX_BACKOFF_MS,
        INITIAL_BACKOFF_MS <= backoff_after(n) <= MAX_BACKOFF_MS,
    decreases n,
{
    reveal_with_fuel(backoff_after, 6);
    if n > 5 {
        lemma_backoff_schedule((n - 1) as nat);
    } else if n > 0 {
        lemma_backoff_schedule((n - 1) as nat);
    }
}

/// The wait after `n` consecutive failures is `min(1000 * 2^n, 30000)` ms.
pub proof fn lemma_backoff_closed_form(n: nat)
    ensures
        backoff_after(n) == (if n < 5 { 1000 * pow2(n) } else { MAX_BACKOFF_MS as nat }),
{
    lemma_backoff_schedule(n);
    lemma2_to64();
}

/// The waits slept by `n` consecutive failed attempts, starting from a
/// schedule whose next wait is `ms`: each failure sleeps the current wait,
/// then doubles it (capped), as [`Reconnect::on_connect_failed`] does.
pub open spec fn failure_waits(ms: u64, n: nat) -> Seq<u64>
    decreases n,
{
    if n == 0 {
        Seq::empty()
    } else {
        seq![ms] + failure_waits(doubled_backoff(ms), (n - 1) as nat)
    }
}

/// A schedule that has already seen `m` failures (a fresh one has seen none,
/// and a connection resets it to none) sleeps, on its next `n` failures, the
/// waits `backoff_after(m)`, ..., `backoff_after(m + n - 1)`: from a fresh
/// schedule, 1 s, 2 s, 4 s, 8 s, 16 s, then 30 s for good.
pub proof fn lemma_failure_waits(m: nat, n: nat)
    ensures
        failure_waits(backoff_after(m), n).len() == n,
        forall|k: int| 0 <= k < n ==> #[trigger] failure_waits(backoff_after(m), n)[k] == backoff_after(m + k as nat),
    decreases n,
{
    if n > 0 {
        lemma_failure_waits(m + 1, (n - 1) as nat);
        let rest = failure_waits(backoff_after(m + 1), (n - 1) as nat);
        assert(backoff_after(m + 1) == doubled_backoff(backoff_after(m)));
        let w = failure_waits(backoff_after(m), n);
        assert(w == seq![backoff_after(m)] + rest);
        assert forall|k: int| 0 <= k < n implies #[trigger] w[k] == backoff_after(m + k as nat) by {
            if k > 0 {
                assert(w[k] == rest[k - 1]);
                assert((m + 1) + (k - 1) as nat == m + k as nat);
            }
        }
    }
}

// ─── Host side ───────────────────────────────────────────────────────────────

/// Whether the host should read its clipboard before sending `event`: on
/// `CaptureStart`, when clipboard sync is on.
pub open spec fn wants_clipboard_spec(event: Event, clipboard_enabled: bool) -> bool {
    event is CaptureStart && clipboard_enabled
}

/// See [`wants_clipboard_spec`].
pub fn wants_clipboard(event: &Event, clipboard_enabled: bool) -> (r: bool)
    ensures
        r == wants_clipboard_spec(*event, clipboard_enabled),
{
    clipboard_enabled && matches!(event, Event::CaptureStart)
}

/// The frames the host sends for an event of its hook: the event itself,
/// preceded by the host clipboard when capture starts with clipboard sync on
/// and the clipboard held text.
pub fn outbound_frames(event: Event, clipboard_enabled: bool, clipboard: Option<String>) -> (r: Vec<Event>)
    ensures
        (wants_clipboard_spec(event, clipboard_enabled) && clipboard is Some) ==> r@ == seq![
            Event::ClipboardText { text: clipboard->0 },
            event,
        ],
        !(wants_clipboard_spec(event, clipboard_enabled) && clipboard is Some) ==> r@ == seq![event],
{
    let mut out: Vec<Event> = Vec::new();
    let wants = wants_clipboard(&event, clipboard_enabled);
    if wants {
        if let Some(text) = clipboard {
            out.push(Event::ClipboardText { text });
        }
    }
    out.push(event);
    out
}

/// What the host does with a frame from the client.
#[derive(Debug)]
pub enum HostInbound {
    /// Nothing to do (a heartbeat echo, or an event the host does not expect).
    Nothing,
    /// Put this text on the host clipboard.
    WriteClipboard(String),
    /// The client cursor left its screen: hand control back on the matching side.
    ReleaseToward { edge: u8, frac_bits: u32 },
    /// The client reported its screen size.
    SetResolution { width: i32, height: i32 },
    /// The client's stream ended: close this connection.
    Finish,
}

/// The host's answer to a frame from the client (`None`: the stream ended).
pub open spec fn host_inbound_spec(ev: Option<Event>, clipboard_enabled: bool) -> HostInbound {
    match ev {
        None => HostInbound::Finish,
        Some(Event::ClipboardText { text }) => if clipboard_enabled {
            HostInbound::WriteClipboard(text)
        } else {
            HostInbound::Nothing
        },
        Some(Event::EdgeReached { edge, frac_bits }) => HostInbound::ReleaseToward { edge, frac_bits },
        Some(Event::ClientInfo { width, height }) => HostInbound::SetResolution { width, height },
        Some(_) => HostInbound::Nothing,
    }
}

/// See [`host_inbound_spec`].
pub fn host_inbound(ev: Option<Event>, clipboard_enabled: bool) -> (r: HostInbound)
    ensures
        r == host_inbound_spec(ev, clipboard_enabled),
{
    match ev {
        None => HostInbound::Finish,
        Some(Event::ClipboardText { text }) => {
            if clipboard_enabled {
                HostInbound::WriteClipboard(text)
            } else {
                HostInbound::Nothing
            }
        },
        Some(Event::EdgeReached { edge, frac_bits }) => HostInbound::ReleaseToward { edge, frac_bits },
        Some(Event::ClientInfo { width, height }) => HostInbound::SetResolution { width, height },
        Some(_) => HostInbound::Nothing,
    }
}

// ─── Client side ─────────────────────────────────────────────────────────────

/// What came of one read on the client's connection.
#[derive(Debug)]
pub enum ReadOutcome {
    /// No frame within the heartbeat timeout: the host is presumed dead.
    TimedOut,
    /// The read failed.
    Failed,
    /// The host closed the connection.
    Closed,
    /// A frame arrived.
    Received(Event),
}

/// What the client does after one read.
#[derive(Debug)]
pub struct DriveStep {
    /// Hand this event to the injector.
    pub forward: Option<Event>,
    /// If handing `forward` over fails, end the connection.
    pub stop_if_forward_fails: bool,
    /// Send this event back to the host.
    pub reply: Option<Event>,
    /// If sending `reply` fails, release capture locally and end the connection.
    pub stop_if_reply_fails: bool,
    /// Put this text on the local clipboard.
    pub write_clipboard: Option<String>,
    /// Read the local clipboard and, if it holds text, send it to the host
    /// (before `forward` is handed over).
    pub ship_clipboard: bool,
    /// End the connection after this step.
    pub stop: bool,
}

/// The client's step for a read outcome: a lost connection releases capture
/// locally and stops; a heartbeat is echoed; clipboard text is written (when
/// sync is on); `CaptureEnd` ships the local clipboard first (when sync is
/// on) and is forwarded; any other event is forwarded.
pub open spec fn drive_step_spec(r: ReadOutcome, clipboard_enabled: bool) -> DriveStep {
    let quiet = DriveStep {
        forward: None,
        stop_if_forward_fails: false,
        reply: None,
        stop_if_reply_fails: false,
        write_clipboard: None,
        ship_clipboard: false,
        stop: false,
    };
    match r {
        ReadOutcome::Received(Event::Heartbeat) => DriveStep {
            reply: Some(Event::Heartbeat),
            stop_if_reply_fails: true,
            ..quiet
        },
        ReadOutcome::Received(Event::ClipboardText { text }) => DriveStep {
            write_clipboard: if clipboard_enabled { Some(text) } else { None },
            ..quiet
        },
        ReadOutcome::Received(Event::CaptureEnd) => DriveStep {
            forward: Some(Event::CaptureEnd),
            ship_clipboard: clipboard_enabled,
            ..quiet
        },
        ReadOutcome::Received(e) => DriveStep {
            forward: Some(e),
            stop_if_forward_fails: true,
            ..quiet
        },
        _ => DriveStep { forward: Some(Event::CaptureEnd), stop: true, ..quiet },
    }
}

/// See [`drive_step_spec`].
pub fn drive_step(r: ReadOutcome, clipboard_enabled: bool) -> (s: DriveStep)
    ensures
        s == drive_step_spec(r, clipboard_enabled),
{
    let quiet = DriveStep {
        forward: None,
        stop_if_forward_fails: false,
        reply: None,
        stop_if_reply_fails: false,
        write_clipboard: None,
        ship_clipboard: false,
        stop: false,
    };
    match r {
        ReadOutcome::Received(Event::Heartbeat) => DriveStep {
            reply: Some(Event::Heartbeat),
            stop_if_reply_fails: true,
            ..quiet
        },
        ReadOutcome::Received(Event::ClipboardText { text }) => DriveStep {
            write_clipboard: if clipboard_enabled { Some(text) } else { None },
            ..quiet
        },
        ReadOutcome::Received(Event::CaptureEnd) => DriveStep {
            forward: Some(Event::CaptureEnd),
            ship_clipboard: clipboard_enabled,
            ..quiet
        },
        ReadOutcome::Received(e) => DriveStep {
            forward: Some(e),
            stop_if_forward_fails: true,
            ..quiet
        },
        _ => DriveStep { forward: Some(Event::CaptureEnd), stop: true, ..quiet },
    }
}

/// A connection that is lost (timeout, read error, close) always hands the
/// injector a `CaptureEnd` before it stops, so no key stays held.
pub proof fn lemma_lost_connection_releases(r: ReadOutcome, clipboard_enabled: bool)
    requires
        !(r is Received),
    ensures
        drive_step_spec(r, clipboard_enabled).stop,
        drive_step_spec(r, clipboard_enabled).forward == Some(Event::CaptureEnd),
{
}

/// Every step that stops the connection forwards `CaptureEnd`.
pub proof fn lemma_stop_forwards_capture_end(r: ReadOutcome, clipboard_enabled: bool)
    ensures
        drive_step_spec(r, clipboard_enabled).stop ==> drive_step_spec(r, clipboard_enabled).forward
            == Some(Event::CaptureEnd),
{
}

/// How the client's main loop handles an event forwarded by its connection.
#[derive(Debug, Clone, Copy, PartialEq, Eq, Structural)]
pub enum ClientDispatch {
    /// Stop tracking the cursor and release every held key and button.
    EndCapture,
    /// Start tracking the cursor.
    StartCapture,
    /// Warp the cursor to this edge of the client screen.
    EnterAt { edge: u8, frac_bits: u32 },
    /// Inject the motion, then feed it to the cursor tracker.
    MoveAndTrack { dx: i32, dy: i32 },
    /// Inject the event as it is.
    Inject,
}

/// See [`client_dispatch`].
pub open spec fn client_dispatch_spec(e: Event) -> ClientDispatch {
    match e {
        Event::CaptureEnd => ClientDispatch::EndCapture,
        Event::CaptureStart => ClientDispatch::StartCapture,
        Event::EnterAt { edge, frac_bits } => ClientDispatch::EnterAt { edge, frac_bits },
        Event::MouseMove { dx, dy } => ClientDispatch::MoveAndTrack { dx, dy },
        _ => ClientDispatch::Inject,
    }
}

/// Which handling an event gets in the client's main loop.
pub fn client_dispatch(e: &Event) -> (r: ClientDispatch)
    ensures
        r == client_dispatch_spec(*e),
{
    match e {
        Event::CaptureEnd => ClientDispatch::EndCapture,
        Event::CaptureStart => ClientDispatch::StartCapture,
        Event::EnterAt { edge, frac_bits } => ClientDispatch::EnterAt { edge: *edge, frac_bits: *frac_bits },
        Event::MouseMove { dx, dy } => ClientDispatch::MoveAndTrack { dx: *dx, dy: *dy },
        _ => ClientDispatch::Inject,
    }
}

} // verus!
