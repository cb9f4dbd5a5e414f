//! Wire protocol: the events exchanged between host and client, and the
//! framing that carries each encoded event (4-byte little-endian length
//! prefix followed by the payload).
use vstd::prelude::*;

verus! {

/// Edge encoding shared by `EnterAt` / `EdgeReached`: cursor at the right edge.
pub const EDGE_RIGHT: u8 = 0;
/// Left edge.
pub const EDGE_LEFT: u8 = 1;
/// Bottom edge.
pub const EDGE_BOTTOM: u8 = 2;
/// Top edge.
pub const EDGE_TOP: u8 = 3;

/// All events that travel between host and client. Positions along an edge
/// (`frac_bits`) are carried as the IEEE-754 bit pattern of an `f32` in [0, 1].
#[derive(Debug)]
pub enum Event {
    /// Key pressed; `keycode` is an evdev key code.
    KeyPress { keycode: u16 },
    /// Key released.
    KeyRelease { keycode: u16 },
    /// Relative mouse motion in pixels.
    MouseMove { dx: i32, dy: i32 },
    /// Mouse button pressed or released; `btn` is an evdev button code.
    MouseButton { btn: u16, pressed: bool },
    /// Wheel scroll in notches; positive `dy` is up.
    Scroll { dx: i32, dy: i32 },
    /// The host captured input; the client starts injecting.
    CaptureStart,
    /// The host released capture.
    CaptureEnd,
    /// Periodic liveness signal.
    Heartbeat,
    /// Keys still held on the client that it must release.
    SyncKeys { keycodes_down: Vec<u16> },
    /// Clipboard text, sent in both directions.
    ClipboardText { text: String },
    /// Warp the client cursor to this edge (client-screen edge) at `frac_bits`.
    EnterAt { edge: u8, frac_bits: u32 },
    /// The client cursor was pushed past this edge of its screen.
    EdgeReached { edge: u8, frac_bits: u32 },
    /// The client's screen resolution, sent once on connect.
    ClientInfo { width: i32, height: i32 },
}

/// Largest payload a frame may announce (64 KiB): a longer prefix means a
/// corrupt stream.
pub const MAX_FRAME: u32 = 65536;

/// Number of bytes in the length prefix.
pub const PREFIX_LEN: usize = 4;

/// Little-endian bytes of `v`.
pub open spec fn le_bytes(v: u32) -> Seq<u8> {
    seq![
        (v % 256) as u8,
        ((v / 256) % 256) as u8,
        ((v / 65536) % 256) as u8,
        (v / 16777216) as u8,
    ]
}

/// The `u32` whose little-endian bytes start `s`.
pub open spec fn from_le_bytes(s: Seq<u8>) -> u32
    recommends
        s.len() >= 4,
{
    (s[0] + 256 * s[1] + 65536 * s[2] + 16777216 * s[3]) as u32
}

/// The frame that carries `payload`: its length, as a `u32`, then the bytes.
pub open spec fn frame_of(payload: Seq<u8>) -> Seq<u8> {
    le_bytes(payload.len() as u32) + payload
}

/// Reading back the little-endian bytes of a value gives the value.
pub proof fn lemma_le_bytes_roundtrip(v: u32)
    ensures
        from_le_bytes(le_bytes(v)) == v,
        le_bytes(v).len() == 4,
{
    let b0 = v % 256;
    let b1 = (v / 256) % 256;
    let b2 = (v / 65536) % 256;
    let b3 = v / 16777216;
    assert(b0 + 256 * b1 + 65536 * b2 + 16777216 * b3 == v) by (nonlinear_arith)
        requires
            b0 == v % 256,
            b1 == (v / 256) % 256,
            b2 == (v / 65536) % 256,
            b3 == v / 16777216,
    ;
}

/// Build the frame for an encoded event: the payload length as a
/// little-endian `u32` (the length is taken modulo 2^32), then the payload,
/// as one buffer so it goes out in a single write.
pub fn encode_frame(payload: &[u8]) -> (frame: Vec<u8>)
    ensures
        frame@ == frame_of(payload@),
{
    let len = payload.len() as u32;
    let mut frame: Vec<u8> = Vec::new();
    frame.push((len % 256) as u8);
    frame.push(((len / 256) % 256) as u8);
    frame.push(((len / 65536) % 256) as u8);
    frame.push((len / 16777216) as u8);
    let mut i: usize = 0;
    while i < payload.len()
        invariant
            i <= payload@.len(),
            len == payload@.len() as u32,
            frame@ == le_bytes(len) + payload@.subrange(0, i as int),
        decreases payload@.len() - i,
    {
        frame.push(payload[i]);
        i = i + 1;
        assert(payload@.subrange(0, i as int) =~= payload@.subrange(0, i - 1) + seq![payload@[i - 1]]);
    }
    assert(payload@.subrange(0, payload@.len() as int) =~= payload@);
    frame
}

/// The payload length announced by a 4-byte prefix.
pub fn frame_len(prefix: &[u8]) -> (len: u32)
    requires
        prefix@.len() >= 4,
    ensures
        len == from_le_bytes(prefix@),
{
    prefix[0] as u32 + 256 * (prefix[1] as u32) + 65536 * (prefix[2] as u32) + 16777216 * (prefix[3] as u32)
}

/// Why a frame was refused.
#[derive(Debug, Clone, Copy, PartialEq, Eq)]
pub enum FrameError {
    /// The prefix announces more than `MAX_FRAME` bytes.
    TooLarge { len: u32 },
}

/// Accept an announced payload length, or refuse it when it exceeds `MAX_FRAME`.
pub fn check_frame_len(len: u32) -> (r: Result<usize, FrameError>)
    ensures
        len <= MAX_FRAME ==> r == Ok::<usize, FrameError>(len as usize),
        len > MAX_FRAME ==> r == Err::<usize, FrameError>(FrameError::TooLarge { len }),
{
    if len > MAX_FRAME {
        Err(FrameError::TooLarge { len })
    } else {
        Ok(len as usize)
    }
}

/// Outcome of looking for one frame at the start of a buffer.
#[derive(Debug)]
pub enum FrameSplit {
    /// The buffer does not yet hold a whole frame.
    Incomplete,
    /// The prefix announces a payload over `MAX_FRAME`.
    TooLarge { len: u32 },
    /// A whole frame: its payload and the number of bytes it used.
    Frame { payload: Vec<u8>, consumed: usize },
}

/// Take the first frame off `buf`.
pub fn split_frame(buf: &[u8]) -> (r: FrameSplit)
    ensures
        buf@.len() < 4 ==> r is Incomplete,
        buf@.len() >= 4 && from_le_bytes(buf@) > MAX_FRAME ==> r == (FrameSplit::TooLarge {
            len: from_le_bytes(buf@),
        }),
        buf@.len() >= 4 && from_le_bytes(buf@) <= MAX_FRAME && buf@.len() < 4 + from_le_bytes(
            buf@,
        ) ==> r is Incomplete,
        buf@.len() >= 4 && from_le_bytes(buf@) <= MAX_FRAME && buf@.len() >= 4 + from_le_bytes(
            buf@,
        ) ==> (r matches FrameSplit::Frame { payload, consumed } && consumed == 4 + from_le_bytes(
            buf@,
        ) && payload@ == buf@.subrange(4, consumed as int)),
{
    if buf.len() < PREFIX_LEN {
        return FrameSplit::Incomplete;
    }
    let len = frame_len(buf);
    match check_frame_len(len) {
        Err(FrameError::TooLarge { len }) => FrameSplit::TooLarge { len },
        Ok(n) => {
            if buf.len() - PREFIX_LEN < n {
                FrameSplit::Incomplete
            } else {
                let end = PREFIX_LEN + n;
                let mut payload: Vec<u8> = Vec::new();
                let mut i: usize = PREFIX_LEN;
                while i < end
                    invariant
                        PREFIX_LEN <= i <= end,
                        end <= buf@.len(),
                        payload@ == buf@.subrange(4, i as int),
                    decreases end - i,
                {
                    payload.push(buf[i]);
                    i = i + 1;
                    assert(buf@.subrange(4, i as int) =~= buf@.subrange(4, i - 1) + seq![buf@[i - 1]]);
                }
                FrameSplit::Frame { payload, consumed: end }
            }
        },
    }
}

/// A frame built for any payload of at most `MAX_FRAME` bytes is read back
/// whole: the reader recovers exactly that payload and consumes exactly the frame.
pub proof fn lemma_frame_roundtrip(payload: Seq<u8>, rest: Seq<u8>)
    requires
        payload.len() <= MAX_FRAME,
    ensures
        ({
            let buf = frame_of(payload) + rest;
            &&& buf.len() >= 4
            &&& from_le_bytes(buf) == payload.len()
            &&& from_le_bytes(buf) <= MAX_FRAME
            &&& buf.len() >= 4 + from_le_bytes(buf)
            &&& buf.subrange(4, 4 + payload.len() as int) == payload
        }),
{
    let v = payload.len() as u32;
    lemma_le_bytes_roundtrip(v);
    let buf = frame_of(payload) + rest;
    assert(buf.subrange(0, 4) =~= le_bytes(v));
    assert(buf[0] == le_bytes(v)[0] && buf[1] == le_bytes(v)[1] && buf[2] == le_bytes(v)[2] && buf[3] == le_bytes(v)[3]);
    assert(buf.subrange(4, 4 + payload.len() as int) =~= payload);
}

} // verus!
