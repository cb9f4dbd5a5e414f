//! Host monitors as the system lists them, and lookup by device name.
use vstd::prelude::*;
use crate::text::{strip_all_prefix, strip_all_prefix_str, str_eq, to_uppercase, trim, trim_str, uppercase};

verus! {

/// One attached monitor: its device name without the `\\.\` prefix (e.g.
/// "DISPLAY1") and its rectangle in desktop coordinates.
#[derive(Debug)]
pub struct Monitor {
    pub device: String,
    pub left: i32,
    pub top: i32,
    pub right: i32,
    pub bottom: i32,
    pub primary: bool,
}

impl Monitor {
    /// `right - left` (wrapping on overflow).
    pub fn width(&self) -> (r: i32)
        ensures
            r == self.right.wrapping_sub(self.left),
    {
        self.right.wrapping_sub(self.left)
    }

    /// `bottom - top` (wrapping on overflow).
    pub fn height(&self) -> (r: i32)
        ensures
            r == self.bottom.wrapping_sub(self.top),
    {
        self.bottom.wrapping_sub(self.top)
    }
}

/// The device-path prefix `\\.\`.
pub open spec fn device_prefix() -> Seq<char> {
    seq!['\\', '\\', '.', '\\']
}

/// "DISPLAY".
pub open spec fn display_word() -> Seq<char> {
    seq!['D', 'I', 'S', 'P', 'L', 'A', 'Y']
}

/// The name a lookup searches for: trimmed, without device-path prefixes,
/// uppercased.
pub open spec fn wanted_name(name: Seq<char>) -> Seq<char> {
    uppercase(strip_all_prefix(trim(name), device_prefix()))
}

/// Whether a device answers to a searched name: the same name ignoring case,
/// or "DISPLAY" followed by it (so "1" finds "DISPLAY1").
pub open spec fn answers_to(device: Seq<char>, wanted: Seq<char>) -> bool {
    uppercase(device) == wanted || uppercase(device) == display_word() + wanted
}

/// Index of the first monitor in `ms` (from `start`) answering to `wanted`.
pub open spec fn first_answering(ms: Seq<Monitor>, wanted: Seq<char>, start: int) -> Option<int>
    decreases ms.len() - start,
{
    if start < 0 || start >= ms.len() {
        None
    } else if answers_to(ms[start].device@, wanted) {
        Some(start)
    } else {
        first_answering(ms, wanted, start + 1)
    }
}

/// The searched form of `name` (see [`wanted_name`]).
pub fn wanted_name_of(name: &str) -> (r: String)
    ensures
        r@ == wanted_name(name@),
{
    let t = trim_str(name);
    proof {
        reveal_strlit("\\\\.\\");
        assert("\\\\.\\"@ =~= device_prefix());
    }
    let s = strip_all_prefix_str(t, "\\\\.\\");
    to_uppercase(s)
}

/// Whether `device` answers to the searched name `wanted`.
pub fn device_answers(device: &str, wanted: &str) -> (r: bool)
    ensures
        r == answers_to(device@, wanted@),
{
    let dev = to_uppercase(device);
    if str_eq(dev.as_str(), wanted) {
        return true;
    }
    let prefixed = String::from_str("DISPLAY").concat(wanted);
    proof {
        reveal_strlit("DISPLAY");
        assert("DISPLAY"@ =~= display_word());
    }
    str_eq(dev.as_str(), prefixed.as_str())
}

/// Find a monitor by device name; "DISPLAY1", "\\.\DISPLAY1" and "1" all
/// find DISPLAY1. The first monitor that answers wins.
pub fn find<'a>(monitors: &'a [Monitor], name: &str) -> (r: Option<&'a Monitor>)
    ensures
        match first_answering(monitors@, wanted_name(name@), 0) {
            Some(i) => r == Some(&monitors@[i]),
            None => r is None,
        },
{
    let wanted = wanted_name_of(name);
    let n = monitors.len();
    let mut i: usize = 0;
    while i < n
        invariant
            n == monitors@.len(),
            i <= n,
            wanted@ == wanted_name(name@),
            first_answering(monitors@, wanted@, 0) == first_answering(monitors@, wanted@, i as int),
        decreases n - i,
    {
        if device_answers(monitors[i].device.as_str(), wanted.as_str()) {
            return Some(&monitors[i]);
        }
        i = i + 1;
    }
    None
}

/// `s` without any trailing `c` (`str::trim_end_matches` with a character).
pub open spec fn trim_trailing(s: Seq<char>, c: char) -> Seq<char>
    decreases s.len(),
{
    if s.len() > 0 && s.last() == c {
        trim_trailing(s.drop_last(), c)
    } else {
        s
    }
}

proof fn lemma_trim_trailing(s: Seq<char>, c: char, j: int)
    requires
        0 <= j <= s.len(),
        forall|k: int| j <= k < s.len() ==> s[k] == c,
    ensures
        trim_trailing(s, c) == trim_trailing(s.take(j), c),
    decreases s.len() - j,
{
    if j < s.len() {
        assert(s.drop_last() =~= s.take(s.len() - 1));
        lemma_trim_trailing(s.drop_last(), c, j);
        assert(s.drop_last().take(j) =~= s.take(j));
    } else {
        assert(s.take(j) =~= s);
    }
}

/// The device name of a monitor as the system reports it: the fixed-size
/// name buffer without its trailing NULs and without the `\\.\` prefix.
pub open spec fn device_name(raw: Seq<char>) -> Seq<char> {
    strip_all_prefix(trim_trailing(raw, '\0'), device_prefix())
}

/// See [`device_name`].
pub fn device_name_of(raw: &str) -> (r: String)
    ensures
        r@ == device_name(raw@),
{
    let n = raw.unicode_len();
    let mut j: usize = n;
    while j > 0 && raw.get_char(j - 1) == '\0'
        invariant
            n == raw@.len(),
            j <= n,
            forall|k: int| j <= k < n ==> raw@[k] == '\0',
        decreases j,
    {
        j = j - 1;
    }
    let kept = raw.substring_char(0, j);
    proof {
        lemma_trim_trailing(raw@, '\0', j as int);
        assert(kept@ =~= raw@.take(j as int));
        if j > 0 {
            assert(kept@.last() != '\0');
        }
        assert(trim_trailing(kept@, '\0') == kept@);
        reveal_strlit("\\\\.\\");
        assert("\\\\.\\"@ =~= device_prefix());
    }
    strip_all_prefix_str(kept, "\\\\.\\").to_owned()
}

} // verus!
