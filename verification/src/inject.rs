//! Client-side injection: what each received event becomes on the client
//! machine, as kernel input events (Linux uinput) or as input records for a
//! Windows client, plus the key/button bookkeeping that lets a Windows client
//! release exactly what it pressed.
use vstd::prelude::*;
use crate::keys::{evdev_to_scancode, spec_evdev_to_scancode};
use crate::protocol::Event;
use std::collections::HashSet;
use vstd::std_specs::hash::spec_hash_keys_iter;
use vstd::std_specs::iter::IteratorSpec;

verus! {

// ─── Linux (uinput) ─────────────────────────────────────────────────────────

/// Kernel event type: synchronisation.
pub const EV_SYN: u16 = 0x00;
/// Kernel event type: key or button.
pub const EV_KEY: u16 = 0x01;
/// Kernel event type: relative axis.
pub const EV_REL: u16 = 0x02;
pub const REL_X: u16 = 0x00;
pub const REL_Y: u16 = 0x01;
pub const REL_HWHEEL: u16 = 0x06;
pub const REL_WHEEL: u16 = 0x08;
pub const REL_WHEEL_HI_RES: u16 = 0x0b;
pub const REL_HWHEEL_HI_RES: u16 = 0x0c;

/// Hi-res wheel units per notch.
pub const WHEEL_UNITS: i32 = 120;

/// One kernel input event (type, code, value).
#[derive(Debug, Clone, Copy, PartialEq, Eq, Structural)]
pub struct KernelEvent {
    pub kind: u16,
    pub code: u16,
    pub value: i32,
}

pub open spec fn key_event(code: u16, value: i32) -> KernelEvent {
    KernelEvent { kind: EV_KEY, code, value }
}

pub open spec fn rel_event(code: u16, value: i32) -> KernelEvent {
    KernelEvent { kind: EV_REL, code, value }
}

pub open spec fn syn_report() -> KernelEvent {
    KernelEvent { kind: EV_SYN, code: 0, value: 0 }
}

/// Kernel events for an event (before the terminating report); `None` for
/// control events, which are not injected.
pub open spec fn kernel_body(e: Event) -> Option<Seq<KernelEvent>> {
    match e {
        Event::KeyPress { keycode } => Some(seq![key_event(keycode, 1)]),
        Event::KeyRelease { keycode } => Some(seq![key_event(keycode, 0)]),
        Event::MouseMove { dx, dy } => Some(
            (if dx != 0 { seq![rel_event(REL_X, dx)] } else { Seq::empty() })
            + (if dy != 0 { seq![rel_event(REL_Y, dy)] } else { Seq::empty() }),
        ),
        Event::MouseButton { btn, pressed } => Some(seq![key_event(btn, if pressed { 1 } else { 0 })]),
        Event::Scroll { dx, dy } => Some(
            (if dy != 0 {
                seq![rel_event(REL_WHEEL_HI_RES, dy.wrapping_mul(WHEEL_UNITS)), rel_event(REL_WHEEL, dy)]
            } else {
                Seq::empty()
            }) + (if dx != 0 {
                seq![rel_event(REL_HWHEEL_HI_RES, dx.wrapping_mul(WHEEL_UNITS)), rel_event(REL_HWHEEL, dx)]
            } else {
                Seq::empty()
            }),
        ),
        Event::SyncKeys { keycodes_down } => Some(keycodes_down@.map_values(|c: u16| key_event(c, 0))),
        _ => None,
    }
}

/// The batch written for an event: its kernel events followed by a
/// report, or nothing when there are none.
pub open spec fn kernel_batch(e: Event) -> Option<Seq<KernelEvent>> {
    match kernel_body(e) {
        Some(b) => Some(if b.len() == 0 { b } else { b.push(syn_report()) }),
        None => None,
    }
}

/// Keys and buttons on a Linux client: a key press writes its code with
/// value 1 and a release with value 0, a button likewise (1 pressed, 0
/// released), each followed by one report. Across every event, a key code is
/// only ever written with value 1 by a key press or a button press of that
/// very code (a release, a key sync or anything else never presses), and a
/// batch that writes anything ends with exactly one report, at its end.
pub proof fn lemma_kernel_keys(e: Event, code: u16, btn: u16, pressed: bool)
    ensures
        kernel_batch(Event::KeyPress { keycode: code }) == Some(seq![
            KernelEvent { kind: EV_KEY, code, value: 1 },
            KernelEvent { kind: EV_SYN, code: 0, value: 0 },
        ]),
        kernel_batch(Event::KeyRelease { keycode: code }) == Some(seq![
            KernelEvent { kind: EV_KEY, code, value: 0 },
            KernelEvent { kind: EV_SYN, code: 0, value: 0 },
        ]),
        kernel_batch(Event::MouseButton { btn, pressed }) == Some(seq![
            KernelEvent { kind: EV_KEY, code: btn, value: if pressed { 1 } else { 0 } },
            KernelEvent { kind: EV_SYN, code: 0, value: 0 },
        ]),
        kernel_batch(e) matches Some(b) ==> forall|i: int| 0 <= i < b.len() && (#[trigger] b[i]).kind == EV_KEY
            ==> (b[i].value == 0 || (b[i].value == 1 && (e == (Event::KeyPress { keycode: b[i].code })
                || e == (Event::MouseButton { btn: b[i].code, pressed: true })))),
        kernel_batch(e) matches Some(b) ==> (b.len() > 0 ==> {
            &&& b.last() == (KernelEvent { kind: EV_SYN, code: 0, value: 0 })
            &&& forall|i: int| 0 <= i < b.len() - 1 ==> (#[trigger] b[i]).kind != EV_SYN
        }),
{
    match e {
        Event::SyncKeys { keycodes_down } => {
            let body = keycodes_down@.map_values(|c: u16| key_event(c, 0));
            assert forall|i: int| 0 <= i < body.len() implies (#[trigger] body[i]).kind == EV_KEY && body[i].value == 0 by {
            }
            if body.len() > 0 {
                let b = body.push(syn_report());
                assert forall|i: int| 0 <= i < b.len() - 1 implies (#[trigger] b[i]).kind != EV_SYN by {
                    assert(b[i] == body[i]);
                }
                assert forall|i: int| 0 <= i < b.len() && (#[trigger] b[i]).kind == EV_KEY implies b[i].value == 0 by {
                    if i < body.len() {
                        assert(b[i] == body[i]);
                    }
                }
            }
        },
        Event::Scroll { dx, dy } => {
            let body = kernel_body(e)->0;
            if body.len() > 0 {
                let b = body.push(syn_report());
                assert forall|i: int| 0 <= i < b.len() - 1 implies (#[trigger] b[i]).kind != EV_SYN by {
                    assert(b[i] == body[i]);
                }
                assert forall|i: int| 0 <= i < b.len() implies (#[trigger] b[i]).kind != EV_KEY by {
                    if i < body.len() {
                        assert(b[i] == body[i]);
                    }
                }
            }
        },
        Event::MouseMove { dx, dy } => {
            let body = kernel_body(e)->0;
            if body.len() > 0 {
                let b = body.push(syn_report());
                assert forall|i: int| 0 <= i < b.len() - 1 implies (#[trigger] b[i]).kind != EV_SYN by {
                    assert(b[i] == body[i]);
                }
                assert forall|i: int| 0 <= i < b.len() implies (#[trigger] b[i]).kind != EV_KEY by {
                    if i < body.len() {
                        assert(b[i] == body[i]);
                    }
                }
            }
        },
        _ => {},
    }
}

/// Motion and wheel on a Linux client: a move writes its x motion on the x
/// axis and its y motion on the y axis (a zero component is left out, and a
/// zero move writes nothing); a vertical scroll writes the high-resolution
/// amount (120 per notch) then the notches on the wheel axis, a horizontal
/// one likewise on the horizontal wheel; each non-empty batch ends with a
/// report.
pub proof fn lemma_kernel_motion(dx: i32, dy: i32)
    ensures
        (dx != 0 && dy != 0) ==> kernel_batch(Event::MouseMove { dx, dy }) == Some(seq![
            KernelEvent { kind: EV_REL, code: REL_X, value: dx },
            KernelEvent { kind: EV_REL, code: REL_Y, value: dy },
            KernelEvent { kind: EV_SYN, code: 0, value: 0 },
        ]),
        (dx != 0 && dy == 0) ==> kernel_batch(Event::MouseMove { dx, dy }) == Some(seq![
            KernelEvent { kind: EV_REL, code: REL_X, value: dx },
            KernelEvent { kind: EV_SYN, code: 0, value: 0 },
        ]),
        (dx == 0 && dy != 0) ==> kernel_batch(Event::MouseMove { dx, dy }) == Some(seq![
            KernelEvent { kind: EV_REL, code: REL_Y, value: dy },
            KernelEvent { kind: EV_SYN, code: 0, value: 0 },
        ]),
        (dx == 0 && dy == 0) ==> kernel_batch(Event::MouseMove { dx, dy }) == Some(Seq::<KernelEvent>::empty()),
        (dx == 0 && dy != 0 && -0x1111111 <= dy <= 0x1111111) ==> kernel_batch(Event::Scroll { dx, dy }) == Some(seq![
            KernelEvent { kind: EV_REL, code: REL_WHEEL_HI_RES, value: (dy * 120) as i32 },
            KernelEvent { kind: EV_REL, code: REL_WHEEL, value: dy },
            KernelEvent { kind: EV_SYN, code: 0, value: 0 },
        ]),
        (dy == 0 && dx != 0 && -0x1111111 <= dx <= 0x1111111) ==> kernel_batch(Event::Scroll { dx, dy }) == Some(seq![
            KernelEvent { kind: EV_REL, code: REL_HWHEEL_HI_RES, value: (dx * 120) as i32 },
            KernelEvent { kind: EV_REL, code: REL_HWHEEL, value: dx },
            KernelEvent { kind: EV_SYN, code: 0, value: 0 },
        ]),
        (dx == 0 && dy == 0) ==> kernel_batch(Event::Scroll { dx, dy }) == Some(Seq::<KernelEvent>::empty()),
{
    assert(seq![rel_event(REL_X, dx)] + seq![rel_event(REL_Y, dy)] =~= seq![rel_event(REL_X, dx), rel_event(REL_Y, dy)]);
    assert(Seq::<KernelEvent>::empty() + Seq::<KernelEvent>::empty() =~= Seq::<KernelEvent>::empty());
    assert(seq![rel_event(REL_X, dx)] + Seq::<KernelEvent>::empty() =~= seq![rel_event(REL_X, dx)]);
    assert(Seq::<KernelEvent>::empty() + seq![rel_event(REL_Y, dy)] =~= seq![rel_event(REL_Y, dy)]);
}

/// Translate a received event into the kernel events the virtual device
/// writes. `None` means a control event (nothing to inject); an empty batch
/// means an injectable event with nothing to write (a zero move).
pub fn kernel_events(event: &Event) -> (r: Option<Vec<KernelEvent>>)
    ensures
        match r {
            Some(v) => kernel_batch(*event) == Some(v@),
            None => kernel_batch(*event) is None,
        },
{
    let mut evs: Vec<KernelEvent> = Vec::new();
    match event {
        Event::KeyPress { keycode } => {
            evs.push(KernelEvent { kind: EV_KEY, code: *keycode, value: 1 });
        },
        Event::KeyRelease { keycode } => {
            evs.push(KernelEvent { kind: EV_KEY, code: *keycode, value: 0 });
        },
        Event::MouseMove { dx, dy } => {
            if *dx != 0 {
                evs.push(KernelEvent { kind: EV_REL, code: REL_X, value: *dx });
            }
            if *dy != 0 {
                evs.push(KernelEvent { kind: EV_REL, code: REL_Y, value: *dy });
            }
        },
        Event::MouseButton { btn, pressed } => {
            evs.push(KernelEvent { kind: EV_KEY, code: *btn, value: if *pressed { 1 } else { 0 } });
        },
        Event::Scroll { dx, dy } => {
            if *dy != 0 {
                evs.push(KernelEvent { kind: EV_REL, code: REL_WHEEL_HI_RES, value: dy.wrapping_mul(WHEEL_UNITS) });
                evs.push(KernelEvent { kind: EV_REL, code: REL_WHEEL, value: *dy });
            }
            if *dx != 0 {
                evs.push(KernelEvent { kind: EV_REL, code: REL_HWHEEL_HI_RES, value: dx.wrapping_mul(WHEEL_UNITS) });
                evs.push(KernelEvent { kind: EV_REL, code: REL_HWHEEL, value: *dx });
            }
        },
        Event::SyncKeys { keycodes_down } => {
            let n = keycodes_down.len();
            let mut i: usize = 0;
            while i < n
                invariant
                    n == keycodes_down@.len(),
                    i <= n,
                    evs@ == keycodes_down@.subrange(0, i as int).map_values(|c: u16| key_event(c, 0)),
                decreases n - i,
            {
                evs.push(KernelEvent { kind: EV_KEY, code: keycodes_down[i], value: 0 });
                i = i + 1;
                assert(keycodes_down@.subrange(0, i as int).map_values(|c: u16| key_event(c, 0)) =~= keycodes_down@.subrange(0, i - 1).map_values(|c: u16| key_event(c, 0)).push(key_event(keycodes_down@[i - 1], 0)));
            }
            assert(keycodes_down@.subrange(0, n as int) =~= keycodes_down@);
        },
        _ => {
            return None;
        },
    }
    let ghost body = evs@;
    assert(kernel_body(*event) == Some(body)) by {
        match event {
            Event::MouseMove { dx, dy } => {
                assert(body =~= (if *dx != 0 { seq![rel_event(REL_X, *dx)] } else { Seq::empty() })
                    + (if *dy != 0 { seq![rel_event(REL_Y, *dy)] } else { Seq::empty() }));
            },
            Event::Scroll { dx, dy } => {
                assert(body =~= (if *dy != 0 {
                    seq![rel_event(REL_WHEEL_HI_RES, dy.wrapping_mul(WHEEL_UNITS)), rel_event(REL_WHEEL, *dy)]
                } else {
                    Seq::empty()
                }) + (if *dx != 0 {
                    seq![rel_event(REL_HWHEEL_HI_RES, dx.wrapping_mul(WHEEL_UNITS)), rel_event(REL_HWHEEL, *dx)]
                } else {
                    Seq::empty()
                }));
            },
            _ => {
                assert(body =~= kernel_body(*event)->0);
            },
        }
    }
    if evs.len() > 0 {
        evs.push(KernelEvent { kind: EV_SYN, code: 0, value: 0 });
    }
    Some(evs)
}

/// Key codes a virtual device declares: keyboard keys 1..=248 and mouse
/// buttons 0x110..=0x117.
pub open spec fn release_codes() -> Seq<u16> {
    Seq::new(248, |i: int| (i + 1) as u16) + Seq::new(8, |i: int| (0x110 + i) as u16)
}

/// The batch that releases every key and button the virtual device declares.
pub fn release_all_events() -> (r: Vec<KernelEvent>)
    ensures
        r@ == release_codes().map_values(|c: u16| key_event(c, 0)).push(syn_report()),
{
    let mut evs: Vec<KernelEvent> = Vec::new();
    let mut code: u16 = 1;
    while code <= 248
        invariant
            1 <= code <= 249,
            evs@ == Seq::new((code - 1) as nat, |i: int| key_event((i + 1) as u16, 0)),
        decreases 249 - code,
    {
        evs.push(KernelEvent { kind: EV_KEY, code, value: 0 });
        code = code + 1;
        assert(evs@ =~= Seq::new((code - 1) as nat, |i: int| key_event((i + 1) as u16, 0)));
    }
    let mut b: u16 = 0x110;
    while b <= 0x117
        invariant
            0x110 <= b <= 0x118,
            evs@ == Seq::new(248, |i: int| key_event((i + 1) as u16, 0)) + Seq::new(
                (b - 0x110) as nat,
                |i: int| key_event((0x110 + i) as u16, 0),
            ),
        decreases 0x118 - b,
    {
        evs.push(KernelEvent { kind: EV_KEY, code: b, value: 0 });
        b = b + 1;
        assert(evs@ =~= Seq::new(248, |i: int| key_event((i + 1) as u16, 0)) + Seq::new(
            (b - 0x110) as nat,
            |i: int| key_event((0x110 + i) as u16, 0),
        ));
    }
    evs.push(KernelEvent { kind: EV_SYN, code: 0, value: 0 });
    assert(evs@ =~= release_codes().map_values(|c: u16| key_event(c, 0)).push(syn_report()));
    evs
}

} // verus!

verus! {

// ─── Windows client (SendInput) ─────────────────────────────────────────────

/// Windows mouse event kinds the client injects.
#[derive(Debug, Clone, Copy, PartialEq, Eq, Structural)]
pub enum MouseFlag {
    Move,
    LeftDown,
    LeftUp,
    RightDown,
    RightUp,
    MiddleDown,
    MiddleUp,
    XDown,
    XUp,
    Wheel,
    HWheel,
}

/// One input record for a Windows client: a scancode key event, or a mouse
/// event with its deltas, data word and kind.
#[derive(Debug, Clone, Copy, PartialEq, Eq, Structural)]
pub enum InputRecord {
    Key { scancode: u16, extended: bool, up: bool },
    Mouse { dx: i32, dy: i32, data: u32, flag: MouseFlag },
}

/// X-button data words: side button 1 and 2.
pub const XBUTTON1: u32 = 1;
pub const XBUTTON2: u32 = 2;

/// evdev button -> (down kind, up kind, data word).
pub open spec fn spec_button(btn: u16) -> Option<(MouseFlag, MouseFlag, u32)> {
    if btn == 0x110 {
        Some((MouseFlag::LeftDown, MouseFlag::LeftUp, 0u32))
    } else if btn == 0x111 {
        Some((MouseFlag::RightDown, MouseFlag::RightUp, 0u32))
    } else if btn == 0x112 {
        Some((MouseFlag::MiddleDown, MouseFlag::MiddleUp, 0u32))
    } else if btn == 0x113 {
        Some((MouseFlag::XDown, MouseFlag::XUp, XBUTTON1))
    } else if btn == 0x114 {
        Some((MouseFlag::XDown, MouseFlag::XUp, XBUTTON2))
    } else {
        None
    }
}

/// Map an evdev button code to the Windows mouse events that press and release it.
pub fn evdev_button(btn: u16) -> (r: Option<(MouseFlag, MouseFlag, u32)>)
    ensures
        r == spec_button(btn),
{
    match btn {
        0x110 => Some((MouseFlag::LeftDown, MouseFlag::LeftUp, 0)),
        0x111 => Some((MouseFlag::RightDown, MouseFlag::RightUp, 0)),
        0x112 => Some((MouseFlag::MiddleDown, MouseFlag::MiddleUp, 0)),
        0x113 => Some((MouseFlag::XDown, MouseFlag::XUp, XBUTTON1)),
        0x114 => Some((MouseFlag::XDown, MouseFlag::XUp, XBUTTON2)),
        _ => None,
    }
}

pub open spec fn key_up(p: (u16, bool)) -> InputRecord {
    InputRecord::Key { scancode: p.0, extended: p.1, up: true }
}

pub open spec fn button_up(b: u16) -> InputRecord {
    InputRecord::Mouse { dx: 0, dy: 0, data: (spec_button(b)->0).2, flag: (spec_button(b)->0).1 }
}

/// Abstract state of a Windows client: the keys (scancode, extended) and
/// buttons it has pressed and not released.
pub struct InjectorView {
    pub keys: Set<(u16, bool)>,
    pub buttons: Set<u16>,
}

/// The records one event turns into on a Windows client, together with the
/// resulting held keys and buttons; `injected` is false for control events.
pub open spec fn windows_step(v: InjectorView, e: Event) -> (bool, Seq<InputRecord>, InjectorView) {
    match e {
        Event::KeyPress { keycode } => match spec_evdev_to_scancode(keycode) {
            Some(p) => (true, seq![InputRecord::Key { scancode: p.0, extended: p.1, up: false }],
                InjectorView { keys: v.keys.insert(p), ..v }),
            None => (true, Seq::empty(), v),
        },
        Event::KeyRelease { keycode } => match spec_evdev_to_scancode(keycode) {
            Some(p) => (true, seq![key_up(p)], InjectorView { keys: v.keys.remove(p), ..v }),
            None => (true, Seq::empty(), v),
        },
        Event::MouseMove { dx, dy } => (true, seq![InputRecord::Mouse { dx, dy, data: 0, flag: MouseFlag::Move }], v),
        Event::MouseButton { btn, pressed } => match spec_button(btn) {
            Some(f) => (true, seq![InputRecord::Mouse { dx: 0, dy: 0, data: f.2, flag: if pressed { f.0 } else { f.1 } }],
                InjectorView { buttons: if pressed { v.buttons.insert(btn) } else { v.buttons.remove(btn) }, ..v }),
            None => (true, Seq::empty(), v),
        },
        Event::Scroll { dx, dy } => (true,
            (if dy != 0 { seq![InputRecord::Mouse { dx: 0, dy: 0, data: dy.wrapping_mul(WHEEL_UNITS) as u32, flag: MouseFlag::Wheel }] } else { Seq::empty() })
            + (if dx != 0 { seq![InputRecord::Mouse { dx: 0, dy: 0, data: dx.wrapping_mul(WHEEL_UNITS) as u32, flag: MouseFlag::HWheel }] } else { Seq::empty() }),
            v),
        Event::SyncKeys { keycodes_down } => (true, sync_records(keycodes_down@), sync_state(v, keycodes_down@)),
        _ => (false, Seq::empty(), v),
    }
}

/// Release records for the listed codes: keys the client maps, else buttons
/// it knows; other codes are skipped.
pub open spec fn sync_records(codes: Seq<u16>) -> Seq<InputRecord>
    decreases codes.len(),
{
    if codes.len() == 0 {
        Seq::empty()
    } else {
        let c = codes.last();
        sync_records(codes.drop_last()) + match spec_evdev_to_scancode(c) {
            Some(p) => seq![key_up(p)],
            None => if spec_button(c) is Some { seq![button_up(c)] } else { Seq::empty() },
        }
    }
}

/// Held state after releasing the listed codes.
pub open spec fn sync_state(v: InjectorView, codes: Seq<u16>) -> InjectorView
    decreases codes.len(),
{
    if codes.len() == 0 {
        v
    } else {
        let c = codes.last();
        let w = sync_state(v, codes.drop_last());
        match spec_evdev_to_scancode(c) {
            Some(p) => InjectorView { keys: w.keys.remove(p), ..w },
            None => if spec_button(c) is Some { InjectorView { buttons: w.buttons.remove(c), ..w } } else { w },
        }
    }
}

/// The key a held (scancode, extended) pair is stored under: the scancode
/// doubled, plus one when extended.
pub open spec fn key_code(p: (u16, bool)) -> u32 {
    (p.0 * 2 + if p.1 { 1int } else { 0int }) as u32
}

/// The (scancode, extended) pair stored under `k`.
pub open spec fn key_of(k: u32) -> (u16, bool) {
    ((k / 2) as u16, k % 2 == 1)
}

/// Largest stored key plus one.
pub const KEY_CODES: u32 = 131072;

/// Injection state of a Windows client: the held keys, each stored as
/// [`key_code`], and the held buttons.
pub struct Injector {
    held: HashSet<u32>,
    held_buttons: HashSet<u16>,
}

impl Injector {
    pub closed spec fn view(&self) -> InjectorView {
        InjectorView {
            keys: Set::new(|p: (u16, bool)| self.held@.contains(key_code(p))),
            buttons: self.held_buttons@,
        }
    }

    /// Every stored key decodes to a pair, and only buttons the client knows
    /// are recorded.
    pub closed spec fn wf(&self) -> bool {
        &&& forall|k: u32| #[trigger] self.held@.contains(k) ==> k < KEY_CODES
        &&& forall|b: u16| #[trigger] self.held_buttons@.contains(b) ==> spec_button(b) is Some
    }

    /// Nothing held.
    pub fn new() -> (r: Self)
        ensures
            r.wf(),
            r@.keys == Set::<(u16, bool)>::empty(),
            r@.buttons == Set::<u16>::empty(),
    {
        let r = Injector { held: HashSet::new(), held_buttons: HashSet::new() };
        assert(r@.keys =~= Set::<(u16, bool)>::empty());
        r
    }

    fn encode(p: (u16, bool)) -> (k: u32)
        ensures
            k == key_code(p),
            k < KEY_CODES,
            key_of(k) == p,
    {
        (p.0 as u32) * 2 + if p.1 { 1 } else { 0 }
    }

    fn add_key(&mut self, p: (u16, bool))
        requires
            old(self).wf(),
        ensures
            final(self).wf(),
            final(self)@ == (InjectorView { keys: old(self)@.keys.insert(p), ..old(self)@ }),
    {
        let k = Self::encode(p);
        self.held.insert(k);
        assert(self@.keys =~= old(self)@.keys.insert(p));
    }

    fn remove_key(&mut self, p: (u16, bool))
        requires
            old(self).wf(),
        ensures
            final(self).wf(),
            final(self)@ == (InjectorView { keys: old(self)@.keys.remove(p), ..old(self)@ }),
    {
        let k = Self::encode(p);
        self.held.remove(&k);
        assert(self@.keys =~= old(self)@.keys.remove(p));
    }

    fn add_button(&mut self, b: u16)
        requires
            old(self).wf(),
            spec_button(b) is Some,
        ensures
            final(self).wf(),
            final(self)@ == (InjectorView { buttons: old(self)@.buttons.insert(b), ..old(self)@ }),
    {
        self.held_buttons.insert(b);
        assert(self@.keys =~= old(self)@.keys);
    }

    fn remove_button(&mut self, b: u16)
        requires
            old(self).wf(),
        ensures
            final(self).wf(),
            final(self)@ == (InjectorView { buttons: old(self)@.buttons.remove(b), ..old(self)@ }),
    {
        self.held_buttons.remove(&b);
        assert(self@.keys =~= old(self)@.keys);
    }
}

} // verus!

verus! {

impl Injector {
    /// Turn one received event into input records for a Windows client,
    /// tracking which keys and buttons end up held. Returns whether the event
    /// was an input event (control events inject nothing).
    pub fn inject(&mut self, event: &Event) -> (r: (bool, Vec<InputRecord>))
        requires
            old(self).wf(),
        ensures
            final(self).wf(),
            (r.0, r.1@, final(self)@) == windows_step(old(self)@, *event),
    {
        let mut out: Vec<InputRecord> = Vec::new();
        match event {
            Event::KeyPress { keycode } => {
                if let Some((sc, ext)) = evdev_to_scancode(*keycode) {
                    self.add_key((sc, ext));
                    out.push(InputRecord::Key { scancode: sc, extended: ext, up: false });
                }
            },
            Event::KeyRelease { keycode } => {
                if let Some((sc, ext)) = evdev_to_scancode(*keycode) {
                    self.remove_key((sc, ext));
                    out.push(InputRecord::Key { scancode: sc, extended: ext, up: true });
                }
            },
            Event::MouseMove { dx, dy } => {
                out.push(InputRecord::Mouse { dx: *dx, dy: *dy, data: 0, flag: MouseFlag::Move });
            },
            Event::MouseButton { btn, pressed } => {
                if let Some((down, up, xdata)) = evdev_button(*btn) {
                    if *pressed {
                        self.add_button(*btn);
                    } else {
                        self.remove_button(*btn);
                    }
                    out.push(InputRecord::Mouse { dx: 0, dy: 0, data: xdata, flag: if *pressed { down } else { up } });
                }
            },
            Event::Scroll { dx, dy } => {
                if *dy != 0 {
                    out.push(InputRecord::Mouse { dx: 0, dy: 0, data: dy.wrapping_mul(WHEEL_UNITS) as u32, flag: MouseFlag::Wheel });
                }
                if *dx != 0 {
                    out.push(InputRecord::Mouse { dx: 0, dy: 0, data: dx.wrapping_mul(WHEEL_UNITS) as u32, flag: MouseFlag::HWheel });
                }
                assert(out@ =~= (if *dy != 0 { seq![InputRecord::Mouse { dx: 0, dy: 0, data: dy.wrapping_mul(WHEEL_UNITS) as u32, flag: MouseFlag::Wheel }] } else { Seq::empty() })
                    + (if *dx != 0 { seq![InputRecord::Mouse { dx: 0, dy: 0, data: dx.wrapping_mul(WHEEL_UNITS) as u32, flag: MouseFlag::HWheel }] } else { Seq::empty() }));
            },
            Event::SyncKeys { keycodes_down } => {
                let ghost v = self@;
                let n = keycodes_down.len();
                let mut i: usize = 0;
                assert(keycodes_down@.take(0) =~= Seq::<u16>::empty());
                while i < n
                    invariant
                        n == keycodes_down@.len(),
                        i <= n,
                        self.wf(),
                        out@ == sync_records(keycodes_down@.take(i as int)),
                        self@ == sync_state(v, keycodes_down@.take(i as int)),
                    decreases n - i,
                {
                    let c = keycodes_down[i];
                    assert(keycodes_down@.take(i + 1).drop_last() =~= keycodes_down@.take(i as int));
                    let ghost prev_out = out@;
                    if let Some((sc, ext)) = evdev_to_scancode(c) {
                        self.remove_key((sc, ext));
                        out.push(InputRecord::Key { scancode: sc, extended: ext, up: true });
                    } else if let Some((_down, up, xdata)) = evdev_button(c) {
                        self.remove_button(c);
                        out.push(InputRecord::Mouse { dx: 0, dy: 0, data: xdata, flag: up });
                    }
                    i = i + 1;
                    assert(out@ =~= sync_records(keycodes_down@.take(i as int)));
                }
                assert(keycodes_down@.take(n as int) =~= keycodes_down@);
            },
            _ => {
                return (false, out);
            },
        }
        proof {
            match event {
                Event::KeyPress { .. } | Event::KeyRelease { .. } | Event::MouseButton { .. } => {
                    assert(out@ =~= windows_step(old(self)@, *event).1);
                },
                Event::MouseMove { .. } => {
                    assert(out@ =~= windows_step(old(self)@, *event).1);
                },
                _ => {},
            }
        }
        (true, out)
    }

    /// Release everything this client pressed: key-ups for every held key,
    /// then button-ups for every held button (each exactly once), leaving
    /// nothing held.
    pub fn release_all(&mut self) -> (r: Vec<InputRecord>)
        requires
            old(self).wf(),
        ensures
            final(self).wf(),
            final(self)@.keys == Set::<(u16, bool)>::empty(),
            final(self)@.buttons == Set::<u16>::empty(),
            exists|ks: Seq<(u16, bool)>, bs: Seq<u16>| {
                &&& ks.no_duplicates()
                &&& ks.to_set() == old(self)@.keys
                &&& bs.no_duplicates()
                &&& bs.to_set() == old(self)@.buttons
                &&& r@ == ks.map_values(|p: (u16, bool)| key_up(p)) + bs.map_values(|b: u16| button_up(b))
            },
    {
        let ghost codes: Seq<u32> = spec_hash_keys_iter(&self.held).remaining().unref();
        let ghost btns: Seq<u16> = spec_hash_keys_iter(&self.held_buttons).remaining().unref();
        let ghost ks = codes.map_values(|k: u32| key_of(k));
        let mut out: Vec<InputRecord> = Vec::new();
        for k in it: self.held.iter()
            invariant
                self.wf(),
                codes == spec_hash_keys_iter(&self.held).remaining().unref(),
                it.seq().unref() == codes,
                ks == codes.map_values(|k: u32| key_of(k)),
                out@ == ks.take(it.index()).map_values(|p: (u16, bool)| key_up(p)),
        {
            let code: u32 = *k;
            assert(codes[it.index()] == code);
            assert(self.held@.contains(code)) by {
                assert(codes.to_set().contains(code));
            }
            let p = ((code / 2) as u16, code % 2 == 1);
            out.push(InputRecord::Key { scancode: p.0, extended: p.1, up: true });
            assert(out@ =~= ks.take(it.index() + 1).map_values(|p: (u16, bool)| key_up(p)));
        }
        assert(ks.take(codes.len() as int) =~= ks);
        let ghost keys_part = out@;
        for b in bit: self.held_buttons.iter()
            invariant
                self.wf(),
                btns == spec_hash_keys_iter(&self.held_buttons).remaining().unref(),
                bit.seq().unref() == btns,
                out@ == keys_part + btns.take(bit.index()).map_values(|b: u16| button_up(b)),
        {
            let c: u16 = *b;
            assert(btns[bit.index()] == c);
            assert(self.held_buttons@.contains(c)) by {
                assert(btns.to_set().contains(c));
            }
            if let Some((_down, up, xdata)) = evdev_button(c) {
                out.push(InputRecord::Mouse { dx: 0, dy: 0, data: xdata, flag: up });
            }
            assert(out@ =~= keys_part + btns.take(bit.index() + 1).map_values(|b: u16| button_up(b)));
        }
        assert(btns.take(btns.len() as int) =~= btns);
        proof {
            assert(ks.no_duplicates()) by {
                assert forall|a: int, b: int| 0 <= a < b < ks.len() implies ks[a] != ks[b] by {
                    assert(codes.to_set().contains(codes[a]));
                    assert(codes.to_set().contains(codes[b]));
                    assert(codes[a] != codes[b]);
                }
            }
            assert(ks.to_set() =~= old(self)@.keys) by {
                assert forall|p: (u16, bool)| ks.to_set().contains(p) <==> old(self)@.keys.contains(p) by {
                    if ks.to_set().contains(p) {
                        let j = choose|j: int| 0 <= j < ks.len() && ks[j] == p;
                        assert(codes.to_set().contains(codes[j]));
                    }
                    if old(self)@.keys.contains(p) {
                        assert(codes.to_set().contains(key_code(p)));
                        let j = choose|j: int| 0 <= j < codes.len() && codes[j] == key_code(p);
                        assert(ks[j] == p);
                    }
                }
            }
        }
        self.held.clear();
        self.held_buttons.clear();
        assert(self@.keys =~= Set::<(u16, bool)>::empty());
        out
    }
}

/// Keys on a Windows client: a press of a key the client maps types that
/// scancode down, and a release types it up, with the same extended flag.
pub proof fn lemma_windows_key_records(v: InjectorView, code: u16)
    ensures
        spec_evdev_to_scancode(code) matches Some(p) ==> {
            &&& windows_step(v, Event::KeyPress { keycode: code }).1
                == seq![InputRecord::Key { scancode: p.0, extended: p.1, up: false }]
            &&& windows_step(v, Event::KeyRelease { keycode: code }).1
                == seq![InputRecord::Key { scancode: p.0, extended: p.1, up: true }]
        },
{
}

/// A key or button pressed on a Windows client stays held until released,
/// so the next `release_all` lets go of it; releasing it first means it is no
/// longer held.
pub proof fn lemma_pressed_until_released(v: InjectorView, code: u16, btn: u16)
    ensures
        spec_evdev_to_scancode(code) matches Some(p) ==> {
            &&& windows_step(v, Event::KeyPress { keycode: code }).2.keys.contains(p)
            &&& !windows_step(windows_step(v, Event::KeyPress { keycode: code }).2, Event::KeyRelease { keycode: code }).2.keys.contains(p)
        },
        spec_button(btn) is Some ==> {
            &&& windows_step(v, Event::MouseButton { btn, pressed: true }).2.buttons.contains(btn)
            &&& !windows_step(windows_step(v, Event::MouseButton { btn, pressed: true }).2, Event::MouseButton { btn, pressed: false }).2.buttons.contains(btn)
        },
{
}

} // verus!
