//! Key-code tables: AT scan-code set 1 <-> evdev key codes, and the mapping
//! of evdev mouse buttons to Windows mouse-button events.
use vstd::prelude::*;

verus! {

/// evdev code of an extended (E0-prefixed) AT set-1 scancode, as the host sends it.
pub open spec fn extended_scancode_evdev(scancode: u32) -> Option<u16> {
    if scancode == 0x1C { Some(96u16) }
    else if scancode == 0x1D { Some(97u16) }
    else if scancode == 0x35 { Some(98u16) }
    else if scancode == 0x38 { Some(100u16) }
    else if scancode == 0x46 { Some(119u16) }
    else if scancode == 0x47 { Some(102u16) }
    else if scancode == 0x48 { Some(103u16) }
    else if scancode == 0x49 { Some(104u16) }
    else if scancode == 0x4B { Some(105u16) }
    else if scancode == 0x4D { Some(106u16) }
    else if scancode == 0x4F { Some(107u16) }
    else if scancode == 0x50 { Some(108u16) }
    else if scancode == 0x51 { Some(109u16) }
    else if scancode == 0x52 { Some(110u16) }
    else if scancode == 0x53 { Some(111u16) }
    else if scancode == 0x5B { Some(125u16) }
    else if scancode == 0x5C { Some(126u16) }
    else if scancode == 0x5D { Some(127u16) }
    else if scancode == 0x5E { Some(116u16) }
    else if scancode == 0x5F { Some(142u16) }
    else if scancode == 0x63 { Some(213u16) }
    else { None }
}

/// AT set-1 scancode (with its E0 flag) -> evdev key code.
/// Plain codes 1..=88 are identical in both sets.
pub open spec fn spec_scancode_to_evdev(scancode: u32, extended: bool) -> Option<u16> {
    if extended {
        extended_scancode_evdev(scancode)
    } else if 1 <= scancode <= 88 {
        Some(scancode as u16)
    } else {
        None
    }
}

/// Extended scancode that a Windows client types for an evdev code (0 = none).
pub open spec fn evdev_extended_scancode(code: u16) -> u16 {
    if code == 96 { 0x1Cu16 }
    else if code == 97 { 0x1Du16 }
    else if code == 98 { 0x35u16 }
    else if code == 100 { 0x38u16 }
    else if code == 102 { 0x47u16 }
    else if code == 103 { 0x48u16 }
    else if code == 104 { 0x49u16 }
    else if code == 105 { 0x4Bu16 }
    else if code == 106 { 0x4Du16 }
    else if code == 107 { 0x4Fu16 }
    else if code == 108 { 0x50u16 }
    else if code == 109 { 0x51u16 }
    else if code == 110 { 0x52u16 }
    else if code == 111 { 0x53u16 }
    else if code == 116 { 0x5Eu16 }
    else if code == 119 { 0x46u16 }
    else if code == 125 { 0x5Bu16 }
    else if code == 126 { 0x5Cu16 }
    else if code == 127 { 0x5Du16 }
    else if code == 142 { 0x5Fu16 }
    else if code == 213 { 0x63u16 }
    else { 0u16 }
}

/// evdev key code -> (AT set-1 scancode, extended flag) for a Windows client.
pub open spec fn spec_evdev_to_scancode(code: u16) -> Option<(u16, bool)> {
    if evdev_extended_scancode(code) != 0 {
        Some((evdev_extended_scancode(code), true))
    } else if 1 <= code <= 88 {
        Some((code, false))
    } else {
        None
    }
}

/// Translate a host keyboard scancode into the evdev code sent on the wire.
pub fn scancode_to_evdev(scancode: u32, extended: bool) -> (r: Option<u16>)
    ensures
        r == spec_scancode_to_evdev(scancode, extended),
{
    if extended {
        match scancode {
            0x1C => Some(96),
            0x1D => Some(97),
            0x35 => Some(98),
            0x38 => Some(100),
            0x46 => Some(119),
            0x47 => Some(102),
            0x48 => Some(103),
            0x49 => Some(104),
            0x4B => Some(105),
            0x4D => Some(106),
            0x4F => Some(107),
            0x50 => Some(108),
            0x51 => Some(109),
            0x52 => Some(110),
            0x53 => Some(111),
            0x5B => Some(125),
            0x5C => Some(126),
            0x5D => Some(127),
            0x5E => Some(116),
            0x5F => Some(142),
            0x63 => Some(213),
            _ => None,
        }
    } else if 1 <= scancode && scancode <= 88 {
        Some(scancode as u16)
    } else {
        None
    }
}

/// Translate an evdev key code back to the scancode a Windows client injects
/// (the inverse of [`scancode_to_evdev`]).
pub fn evdev_to_scancode(code: u16) -> (r: Option<(u16, bool)>)
    ensures
        r == spec_evdev_to_scancode(code),
{
    let ext: u16 = match code {
        96 => 0x1C,
        97 => 0x1D,
        98 => 0x35,
        100 => 0x38,
        102 => 0x47,
        103 => 0x48,
        104 => 0x49,
        105 => 0x4B,
        106 => 0x4D,
        107 => 0x4F,
        108 => 0x50,
        109 => 0x51,
        110 => 0x52,
        111 => 0x53,
        116 => 0x5E,
        119 => 0x46,
        125 => 0x5B,
        126 => 0x5C,
        127 => 0x5D,
        142 => 0x5F,
        213 => 0x63,
        _ => 0,
    };
    if ext != 0 {
        return Some((ext, true));
    }
    if 1 <= code && code <= 88 {
        return Some((code, false));
    }
    None
}

/// The key tables. A plain set-1 scancode from 1 to 88 (Esc to F12) is the
/// evdev code with the same number, and no other plain scancode is mapped.
/// Each E0-prefixed scancode is the evdev code of the same physical key (the
/// navigation block, the arrows, the right-hand modifiers, keypad Enter and
/// `/`, the Windows and Menu keys, Pause and the power keys), never one of
/// the plain codes; a Windows client types each of those codes back as the
/// same E0-prefixed scancode.
pub proof fn lemma_key_tables()
    ensures
        forall|sc: u32| 1 <= sc <= 88 ==> #[trigger] spec_scancode_to_evdev(sc, false) == Some(sc as u16),
        forall|sc: u32| !(1 <= sc <= 88) ==> #[trigger] spec_scancode_to_evdev(sc, false) is None,
        forall|code: u16| 1 <= code <= 88 ==> #[trigger] spec_evdev_to_scancode(code) == Some((code, false)),
        forall|sc: u32| #[trigger] spec_scancode_to_evdev(sc, true) matches Some(k) ==> k > 88,
        // keypad Enter
        spec_scancode_to_evdev(0x1C, true) == Some(96u16),
        spec_evdev_to_scancode(96) == Some((0x1Cu16, true)),
        // right Ctrl
        spec_scancode_to_evdev(0x1D, true) == Some(97u16),
        spec_evdev_to_scancode(97) == Some((0x1Du16, true)),
        // keypad /
        spec_scancode_to_evdev(0x35, true) == Some(98u16),
        spec_evdev_to_scancode(98) == Some((0x35u16, true)),
        // right Alt
        spec_scancode_to_evdev(0x38, true) == Some(100u16),
        spec_evdev_to_scancode(100) == Some((0x38u16, true)),
        // Pause (Ctrl+Break)
        spec_scancode_to_evdev(0x46, true) == Some(119u16),
        spec_evdev_to_scancode(119) == Some((0x46u16, true)),
        // Home
        spec_scancode_to_evdev(0x47, true) == Some(102u16),
        spec_evdev_to_scancode(102) == Some((0x47u16, true)),
        // Up
        spec_scancode_to_evdev(0x48, true) == Some(103u16),
        spec_evdev_to_scancode(103) == Some((0x48u16, true)),
        // Page Up
        spec_scancode_to_evdev(0x49, true) == Some(104u16),
        spec_evdev_to_scancode(104) == Some((0x49u16, true)),
        // Left
        spec_scancode_to_evdev(0x4B, true) == Some(105u16),
        spec_evdev_to_scancode(105) == Some((0x4Bu16, true)),
        // Right
        spec_scancode_to_evdev(0x4D, true) == Some(106u16),
        spec_evdev_to_scancode(106) == Some((0x4Du16, true)),
        // End
        spec_scancode_to_evdev(0x4F, true) == Some(107u16),
        spec_evdev_to_scancode(107) == Some((0x4Fu16, true)),
        // Down
        spec_scancode_to_evdev(0x50, true) == Some(108u16),
        spec_evdev_to_scancode(108) == Some((0x50u16, true)),
        // Page Down
        spec_scancode_to_evdev(0x51, true) == Some(109u16),
        spec_evdev_to_scancode(109) == Some((0x51u16, true)),
        // Insert
        spec_scancode_to_evdev(0x52, true) == Some(110u16),
        spec_evdev_to_scancode(110) == Some((0x52u16, true)),
        // Delete
        spec_scancode_to_evdev(0x53, true) == Some(111u16),
        spec_evdev_to_scancode(111) == Some((0x53u16, true)),
        // left Windows
        spec_scancode_to_evdev(0x5B, true) == Some(125u16),
        spec_evdev_to_scancode(125) == Some((0x5Bu16, true)),
        // right Windows
        spec_scancode_to_evdev(0x5C, true) == Some(126u16),
        spec_evdev_to_scancode(126) == Some((0x5Cu16, true)),
        // Menu
        spec_scancode_to_evdev(0x5D, true) == Some(127u16),
        spec_evdev_to_scancode(127) == Some((0x5Du16, true)),
        // Power
        spec_scancode_to_evdev(0x5E, true) == Some(116u16),
        spec_evdev_to_scancode(116) == Some((0x5Eu16, true)),
        // Sleep
        spec_scancode_to_evdev(0x5F, true) == Some(142u16),
        spec_evdev_to_scancode(142) == Some((0x5Fu16, true)),
        // Wake
        spec_scancode_to_evdev(0x63, true) == Some(213u16),
        spec_evdev_to_scancode(213) == Some((0x63u16, true)),
{
}

/// Every key the host maps arrives on a Windows client as the same physical
/// key: the client's map is the inverse of the host's.
pub proof fn lemma_host_key_roundtrip(scancode: u32, extended: bool)
    requires
        spec_scancode_to_evdev(scancode, extended) is Some,
    ensures
        spec_evdev_to_scancode(spec_scancode_to_evdev(scancode, extended)->0)
            == Some((scancode as u16, extended)),
{
}

/// Every code a Windows client maps is one the host produces, from that scancode.
pub proof fn lemma_client_key_roundtrip(code: u16)
    requires
        spec_evdev_to_scancode(code) is Some,
    ensures
        spec_scancode_to_evdev(
            (spec_evdev_to_scancode(code)->0).0 as u32,
            (spec_evdev_to_scancode(code)->0).1,
        ) == Some(code),
{
}

} // verus!

verus! {

/// Number of key codes the held-key set can track (0..512 covers keyboard
/// keys and mouse buttons).
pub const HELD_CODES: u16 = 512;

/// Whether bit `b` of `w` is set.
pub open spec fn bit_set(w: u64, b: u64) -> bool {
    (w >> b) & 1u64 == 1u64
}

proof fn lemma_bit_or(w: u64, b: u64, b2: u64)
    requires
        b < 64,
        b2 < 64,
    ensures
        bit_set(w | (1u64 << b), b2) == (bit_set(w, b2) || b2 == b),
{
    assert(((w | (1u64 << b)) >> b2) & 1u64 == 1u64 <==> (((w >> b2) & 1u64 == 1u64) || b2 == b))
        by (bit_vector)
        requires
            b < 64,
            b2 < 64,
    ;
}

proof fn lemma_bit_clear(w: u64, b: u64, b2: u64)
    requires
        b < 64,
        b2 < 64,
    ensures
        bit_set(w & !(1u64 << b), b2) == (bit_set(w, b2) && b2 != b),
{
    assert(((w & !(1u64 << b)) >> b2) & 1u64 == 1u64 <==> (((w >> b2) & 1u64 == 1u64) && b2 != b))
        by (bit_vector)
        requires
            b < 64,
            b2 < 64,
    ;
}

proof fn lemma_bit_test(w: u64, b: u64)
    requires
        b < 64,
    ensures
        ((w & (1u64 << b)) != 0) == bit_set(w, b),
{
    assert(((w & (1u64 << b)) != 0) <==> ((w >> b) & 1u64 == 1u64)) by (bit_vector)
        requires
            b < 64,
    ;
}

proof fn lemma_zero_bits(b: u64)
    requires
        b < 64,
    ensures
        !bit_set(0u64, b),
{
    assert(((0u64 >> b) & 1u64) == 0u64) by (bit_vector);
}

/// The set of evdev codes currently held down, as a 512-bit mask.
pub struct HeldKeys {
    words: Vec<u64>,
}

impl HeldKeys {
    pub closed spec fn wf(&self) -> bool {
        self.words@.len() == 8
    }

    /// Whether `code` is marked held.
    pub closed spec fn holds(&self, code: u16) -> bool {
        code < HELD_CODES && bit_set(self.words@[(code / 64) as int], (code % 64) as u64)
    }

    /// The held codes as a set.
    pub open spec fn view(&self) -> Set<u16> {
        Set::new(|c: u16| self.holds(c))
    }

    /// Only codes below [`HELD_CODES`] are ever held, whatever was set or
    /// cleared before.
    pub proof fn lemma_held_below_limit(&self)
        ensures
            forall|c: u16| #[trigger] self@.contains(c) ==> c < HELD_CODES,
    {
    }

    /// An empty set of held keys.
    pub fn new() -> (r: Self)
        ensures
            r.wf(),
            r@ == Set::<u16>::empty(),
    {
        let r = HeldKeys { words: vec![0u64, 0u64, 0u64, 0u64, 0u64, 0u64, 0u64, 0u64] };
        proof {
            assert forall|c: u16| !r.holds(c) by {
                if c < HELD_CODES {
                    lemma_zero_bits((c % 64) as u64);
                }
            }
        }
        assert(r@ =~= Set::<u16>::empty());
        r
    }

    /// Mark `code` as pressed (`down`) or released. Codes past the tracked
    /// range are ignored.
    pub fn set(&mut self, code: u16, down: bool)
        requires
            old(self).wf(),
        ensures
            final(self).wf(),
            code < HELD_CODES && down ==> final(self)@ == old(self)@.insert(code),
            code < HELD_CODES && !down ==> final(self)@ == old(self)@.remove(code),
            code >= HELD_CODES ==> final(self)@ == old(self)@,
    {
        if code < HELD_CODES {
            let idx = (code / 64) as usize;
            let b = (code % 64) as u64;
            let w = self.words[idx];
            let nw = if down { w | (1u64 << b) } else { w & !(1u64 << b) };
            self.words.set(idx, nw);
            proof {
                assert forall|c: u16| #[trigger] self.holds(c) == (if c == code { down } else { old(self).holds(c) }) by {
                    if c < HELD_CODES {
                        if c / 64 == code / 64 {
                            if down {
                                lemma_bit_or(w, b, (c % 64) as u64);
                            } else {
                                lemma_bit_clear(w, b, (c % 64) as u64);
                            }
                        }
                    }
                }
            }
            if down {
                assert(self@ =~= old(self)@.insert(code));
            } else {
                assert(self@ =~= old(self)@.remove(code));
            }
        }
    }

    /// Whether `code` is currently marked held.
    pub fn is_set(&self, code: u16) -> (r: bool)
        requires
            self.wf(),
        ensures
            r == self@.contains(code),
    {
        if code >= HELD_CODES {
            return false;
        }
        let idx = (code / 64) as usize;
        let b = (code % 64) as u64;
        proof {
            lemma_bit_test(self.words@[idx as int], b);
        }
        self.words[idx] & (1u64 << b) != 0
    }

    /// Forget every held key.
    pub fn clear(&mut self)
        ensures
            final(self).wf(),
            final(self)@ == Set::<u16>::empty(),
    {
        *self = HeldKeys::new();
    }

    /// The held codes in increasing order.
    pub fn collect(&self) -> (r: Vec<u16>)
        requires
            self.wf(),
        ensures
            forall|i: int, j: int| 0 <= i < j < r@.len() ==> r@[i] < r@[j],
            forall|c: u16| r@.contains(c) <==> self@.contains(c),
    {
        let mut out: Vec<u16> = Vec::new();
        let mut i: u16 = 0;
        while i < HELD_CODES
            invariant
                self.wf(),
                i <= HELD_CODES,
                forall|a: int, b: int| 0 <= a < b < out@.len() ==> out@[a] < out@[b],
                forall|k: int| 0 <= k < out@.len() ==> out@[k] < i,
                forall|c: u16| c < i ==> (out@.contains(c) <==> self.holds(c)),
                forall|c: u16| out@.contains(c) ==> c < i,
            decreases HELD_CODES - i,
        {
            let held = self.is_set(i);
            let ghost before = out@;
            if held {
                out.push(i);
            }
            proof {
                assert forall|c: u16| c < i + 1 implies (out@.contains(c) <==> self.holds(c)) by {
                    if c < i {
                        if out@.contains(c) && !before.contains(c) {
                            let k = choose|k: int| 0 <= k < out@.len() && out@[k] == c;
                            assert(k == before.len());
                        }
                        if before.contains(c) {
                            let k = choose|k: int| 0 <= k < before.len() && before[k] == c;
                            assert(out@[k] == c);
                        }
                    } else {
                        if held {
                            assert(out@[before.len() as int] == c);
                        } else if out@.contains(c) {
                            let k = choose|k: int| 0 <= k < out@.len() && out@[k] == c;
                            assert(before[k] < i);
                        }
                    }
                }
                assert forall|c: u16| out@.contains(c) implies c < i + 1 by {
                    let k = choose|k: int| 0 <= k < out@.len() && out@[k] == c;
                    if k < before.len() {
                        assert(before[k] == c);
                    }
                }
            }
            i = i + 1;
        }
        proof {
            assert forall|c: u16| out@.contains(c) <==> self@.contains(c) by {
                if c >= HELD_CODES {
                    assert(!self.holds(c));
                }
            }
        }
        out
    }
}

} // verus!
