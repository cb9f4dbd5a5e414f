//! The configurator's view of the host monitors: which sides of each monitor
//! are free desktop boundaries, which monitors are adjacent, and the places a
//! client can be put (a gap between two adjacent monitors or a free side).
use vstd::prelude::*;
use crate::config::ClientEntry;
use crate::hook::{max_i32, min_i32};
use crate::resolve::overlap;
use crate::text::{is_digit, str_eq, push_char};
use crate::monitors::{answers_to, device_answers, wanted_name, wanted_name_of};

verus! {

/// One host monitor as the configurator shows it.
#[derive(Debug)]
pub struct MonitorInfo {
    /// Device name without prefix, e.g. "DISPLAY1".
    pub device: String,
    pub left: i32,
    pub top: i32,
    pub right: i32,
    pub bottom: i32,
    pub primary: bool,
}

/// `s` without its leading characters that are not ASCII digits.
pub open spec fn skip_non_digits(s: Seq<char>) -> Seq<char>
    decreases s.len(),
{
    if s.len() > 0 && !is_digit(s[0]) {
        skip_non_digits(s.drop_first())
    } else {
        s
    }
}

proof fn lemma_skip_non_digits(s: Seq<char>, i: int)
    requires
        0 <= i <= s.len(),
        forall|k: int| 0 <= k < i ==> !is_digit(s[k]),
    ensures
        skip_non_digits(s) == skip_non_digits(s.skip(i)),
    decreases i,
{
    if i > 0 {
        assert(s.skip(1) =~= s.drop_first());
        lemma_skip_non_digits(s.drop_first(), i - 1);
        assert(s.drop_first().skip(i - 1) =~= s.skip(i));
    } else {
        assert(s.skip(0) =~= s);
    }
}

impl MonitorInfo {
    /// `right - left` (wrapping on overflow).
    pub fn width(&self) -> (r: i32)
        ensures
            r == self.right.wrapping_sub(self.left),
    {
        self.right.wrapping_sub(self.left)
    }

    /// `bottom - top` (wrapping on overflow).
    pub fn height(&self) -> (r: i32)
        ensures
            r == self.bottom.wrapping_sub(self.top),
    {
        self.bottom.wrapping_sub(self.top)
    }

    /// Short label: the device name from its first ASCII digit on ("1" for "DISPLAY1").
    pub fn number(&self) -> (r: String)
        ensures
            r@ == skip_non_digits(self.device@),
    {
        let s = self.device.as_str();
        let n = s.unicode_len();
        let mut i: usize = 0;
        while i < n && !('0' <= s.get_char(i) && s.get_char(i) <= '9')
            invariant
                n == s@.len(),
                i <= n,
                forall|k: int| 0 <= k < i ==> !is_digit(s@[k]),
            decreases n - i,
        {
            i = i + 1;
        }
        proof {
            lemma_skip_non_digits(s@, i as int);
            assert(s@.subrange(i as int, n as int) =~= s@.skip(i as int));
        }
        s.substring_char(i, n).to_owned()
    }
}

/// |d| as `i32::abs` computes it when overflow wraps (|i32::MIN| stays i32::MIN).
pub open spec fn abs_wrapping(d: i32) -> i32 {
    if d == i32::MIN { d } else if d < 0 { (-d) as i32 } else { d }
}

/// Two edges closer than 3 pixels count as touching.
pub open spec fn near(a: i32, b: i32) -> bool {
    abs_wrapping(a.wrapping_sub(b)) <= 2
}

fn is_near(a: i32, b: i32) -> (r: bool)
    ensures
        r == near(a, b),
{
    let d = a.wrapping_sub(b);
    let ad = if d == i32::MIN { d } else if d < 0 { -d } else { d };
    ad <= 2
}

/// Whether two monitors share some height.
pub open spec fn y_overlaps(m: MonitorInfo, o: MonitorInfo) -> bool {
    max_i32(m.top, o.top) < min_i32(m.bottom, o.bottom)
}

/// Whether two monitors share some width.
pub open spec fn x_overlaps(m: MonitorInfo, o: MonitorInfo) -> bool {
    max_i32(m.left, o.left) < min_i32(m.right, o.right)
}

/// Whether monitor `o` sits against side `s` of `m` (0 right, 1 left, 2 bottom, 3 top).
pub open spec fn blocks(s: int, m: MonitorInfo, o: MonitorInfo) -> bool {
    if s == 0 {
        y_overlaps(m, o) && near(o.left, m.right)
    } else if s == 1 {
        y_overlaps(m, o) && near(m.left, o.right)
    } else if s == 2 {
        x_overlaps(m, o) && near(o.top, m.bottom)
    } else {
        x_overlaps(m, o) && near(m.top, o.bottom)
    }
}

/// Whether side `s` of monitor `idx` is a desktop boundary: no other monitor sits against it.
pub open spec fn side_free(ms: Seq<MonitorInfo>, idx: int, s: int) -> bool {
    forall|k: int| 0 <= k < ms.len() && k != idx ==> !blocks(s, ms[idx], #[trigger] ms[k])
}

/// Which sides of `monitors[idx]` are free, as `[right, left, bottom, top]`.
pub fn free_sides(monitors: &[MonitorInfo], idx: usize) -> (r: [bool; 4])
    requires
        idx < monitors@.len(),
    ensures
        r@[0] == side_free(monitors@, idx as int, 0),
        r@[1] == side_free(monitors@, idx as int, 1),
        r@[2] == side_free(monitors@, idx as int, 2),
        r@[3] == side_free(monitors@, idx as int, 3),
{
    let m = &monitors[idx];
    let mut f0 = true;
    let mut f1 = true;
    let mut f2 = true;
    let mut f3 = true;
    let n = monitors.len();
    let mut k: usize = 0;
    while k < n
        invariant
            n == monitors@.len(),
            idx < n,
            *m == monitors@[idx as int],
            k <= n,
            f0 == (forall|j: int| 0 <= j < k && j != idx ==> !blocks(0, *m, #[trigger] monitors@[j])),
            f1 == (forall|j: int| 0 <= j < k && j != idx ==> !blocks(1, *m, #[trigger] monitors@[j])),
            f2 == (forall|j: int| 0 <= j < k && j != idx ==> !blocks(2, *m, #[trigger] monitors@[j])),
            f3 == (forall|j: int| 0 <= j < k && j != idx ==> !blocks(3, *m, #[trigger] monitors@[j])),
        decreases n - k,
    {
        if k != idx {
            let o = &monitors[k];
            let top = if m.top >= o.top { m.top } else { o.top };
            let bottom = if m.bottom <= o.bottom { m.bottom } else { o.bottom };
            let left = if m.left >= o.left { m.left } else { o.left };
            let right = if m.right <= o.right { m.right } else { o.right };
            let y_ov = top < bottom;
            let x_ov = left < right;
            if y_ov && is_near(o.left, m.right) {
                f0 = false;
            }
            if y_ov && is_near(m.left, o.right) {
                f1 = false;
            }
            if x_ov && is_near(o.top, m.bottom) {
                f2 = false;
            }
            if x_ov && is_near(m.top, o.bottom) {
                f3 = false;
            }
        }
        k = k + 1;
    }
    let r = [f0, f1, f2, f3];
    assert(r@[0] == f0 && r@[1] == f1 && r@[2] == f2 && r@[3] == f3);
    r
}

/// Monitor coordinates small enough that edge distances never wrap.
pub open spec fn small_coords(m: MonitorInfo) -> bool {
    &&& -0x3fff_ffff <= m.left <= 0x3fff_ffff
    &&& -0x3fff_ffff <= m.top <= 0x3fff_ffff
    &&& -0x3fff_ffff <= m.right <= 0x3fff_ffff
    &&& -0x3fff_ffff <= m.bottom <= 0x3fff_ffff
}

proof fn lemma_near_distance(a: i32, b: i32)
    requires
        -0x3fff_ffff <= a <= 0x3fff_ffff,
        -0x3fff_ffff <= b <= 0x3fff_ffff,
    ensures
        near(a, b) <==> -2 <= a - b <= 2,
{
}

/// Which sides of a monitor are free, in plain distances. The right side of
/// monitor `idx` is taken exactly when some other monitor shares part of its
/// height and has its left edge within 2 pixels of that right edge; the left
/// side when another shares height and has its right edge within 2 pixels of
/// the left edge; the bottom when another shares part of its width and has
/// its top within 2 pixels of the bottom (a monitor directly below); the top
/// when another shares width and has its bottom within 2 pixels of the top.
pub proof fn lemma_free_sides(ms: Seq<MonitorInfo>, idx: int)
    requires
        0 <= idx < ms.len(),
        forall|k: int| 0 <= k < ms.len() ==> small_coords(#[trigger] ms[k]),
    ensures
        !side_free(ms, idx, 0) <==> exists|k: int| 0 <= k < ms.len() && k != idx && {
            let (m, o) = (ms[idx], #[trigger] ms[k]);
            &&& m.top < m.bottom && o.top < o.bottom && m.top < o.bottom && o.top < m.bottom
            &&& -2 <= o.left - m.right <= 2
        },
        !side_free(ms, idx, 1) <==> exists|k: int| 0 <= k < ms.len() && k != idx && {
            let (m, o) = (ms[idx], #[trigger] ms[k]);
            &&& m.top < m.bottom && o.top < o.bottom && m.top < o.bottom && o.top < m.bottom
            &&& -2 <= m.left - o.right <= 2
        },
        !side_free(ms, idx, 2) <==> exists|k: int| 0 <= k < ms.len() && k != idx && {
            let (m, o) = (ms[idx], #[trigger] ms[k]);
            &&& m.left < m.right && o.left < o.right && m.left < o.right && o.left < m.right
            &&& -2 <= o.top - m.bottom <= 2
        },
        !side_free(ms, idx, 3) <==> exists|k: int| 0 <= k < ms.len() && k != idx && {
            let (m, o) = (ms[idx], #[trigger] ms[k]);
            &&& m.left < m.right && o.left < o.right && m.left < o.right && o.left < m.right
            &&& -2 <= m.top - o.bottom <= 2
        },
{
    let m = ms[idx];
    assert(small_coords(m));
    assert forall|k: int| 0 <= k < ms.len() implies {
        let o = #[trigger] ms[k];
        &&& blocks(0, m, o) <==> (m.top < m.bottom && o.top < o.bottom && m.top < o.bottom && o.top < m.bottom
            && -2 <= o.left - m.right <= 2)
        &&& blocks(1, m, o) <==> (m.top < m.bottom && o.top < o.bottom && m.top < o.bottom && o.top < m.bottom
            && -2 <= m.left - o.right <= 2)
        &&& blocks(2, m, o) <==> (m.left < m.right && o.left < o.right && m.left < o.right && o.left < m.right
            && -2 <= o.top - m.bottom <= 2)
        &&& blocks(3, m, o) <==> (m.left < m.right && o.left < o.right && m.left < o.right && o.left < m.right
            && -2 <= m.top - o.bottom <= 2)
    } by {
        let o = ms[k];
        assert(small_coords(o));
        lemma_near_distance(o.left, m.right);
        lemma_near_distance(m.left, o.right);
        lemma_near_distance(o.top, m.bottom);
        lemma_near_distance(m.top, o.bottom);
    }
}

/// Whether two monitors are stacked: they share more width than height.
pub open spec fn stacked(a: MonitorInfo, b: MonitorInfo) -> bool {
    overlap(a.left, a.right, b.left, b.right) > overlap(a.top, a.bottom, b.top, b.bottom)
}

/// Whether two monitors are stacked (more shared width than height).
pub fn pair_is_stacked(a: &MonitorInfo, b: &MonitorInfo) -> (r: bool)
    ensures
        r == stacked(*a, *b),
{
    let ytop = if a.top >= b.top { a.top } else { b.top };
    let ybot = if a.bottom <= b.bottom { a.bottom } else { b.bottom };
    let xl = if a.left >= b.left { a.left } else { b.left };
    let xr = if a.right <= b.right { a.right } else { b.right };
    let y_ov = if ytop < ybot { ybot.wrapping_sub(ytop) } else { 0 };
    let x_ov = if xl < xr { xr.wrapping_sub(xl) } else { 0 };
    x_ov > y_ov
}

/// Whether monitors `a` and `b` are adjacent, and how: `Some(true)` when
/// stacked (touching top/bottom), `Some(false)` when side by side.
pub open spec fn adjacency(a: MonitorInfo, b: MonitorInfo) -> Option<bool> {
    let h_adj = y_overlaps(a, b) && (near(a.right, b.left) || near(b.right, a.left));
    let v_adj = x_overlaps(a, b) && (near(a.bottom, b.top) || near(b.bottom, a.top));
    if v_adj && stacked(a, b) {
        Some(true)
    } else if h_adj {
        Some(false)
    } else {
        None
    }
}

/// Adjacent pairs (i, j) with i < j and i below `upto`, ordered by i then j.
pub open spec fn pairs_upto(ms: Seq<MonitorInfo>, upto: int) -> Seq<(usize, usize, bool)>
    decreases upto,
{
    if upto <= 0 {
        Seq::empty()
    } else {
        pairs_upto(ms, upto - 1) + pairs_from(ms, upto - 1, ms.len() as int)
    }
}

/// Adjacent pairs (i, j) with i < j < `upto_j`, ordered by j.
pub open spec fn pairs_from(ms: Seq<MonitorInfo>, i: int, upto_j: int) -> Seq<(usize, usize, bool)>
    decreases upto_j - i,
{
    if upto_j <= i + 1 {
        Seq::empty()
    } else {
        let rest = pairs_from(ms, i, upto_j - 1);
        let j = upto_j - 1;
        match adjacency(ms[i], ms[j]) {
            Some(st) => rest.push((i as usize, j as usize, st)),
            None => rest,
        }
    }
}

fn adjacency_of(a: &MonitorInfo, b: &MonitorInfo) -> (r: Option<bool>)
    ensures
        r == adjacency(*a, *b),
{
    let ytop = if a.top >= b.top { a.top } else { b.top };
    let ybot = if a.bottom <= b.bottom { a.bottom } else { b.bottom };
    let xl = if a.left >= b.left { a.left } else { b.left };
    let xr = if a.right <= b.right { a.right } else { b.right };
    let y_ov = ytop < ybot;
    let x_ov = xl < xr;
    let h_adj = y_ov && (is_near(a.right, b.left) || is_near(b.right, a.left));
    let v_adj = x_ov && (is_near(a.bottom, b.top) || is_near(b.bottom, a.top));
    if v_adj && pair_is_stacked(a, b) {
        Some(true)
    } else if h_adj {
        Some(false)
    } else {
        None
    }
}

/// Every pair of adjacent monitors (i < j), with whether it is stacked.
pub fn adjacent_pairs(monitors: &[MonitorInfo]) -> (r: Vec<(usize, usize, bool)>)
    ensures
        r@ == pairs_upto(monitors@, monitors@.len() as int),
{
    let n = monitors.len();
    let mut out: Vec<(usize, usize, bool)> = Vec::new();
    let mut i: usize = 0;
    while i < n
        invariant
            n == monitors@.len(),
            i <= n,
            out@ == pairs_upto(monitors@, i as int),
        decreases n - i,
    {
        let mut j: usize = i + 1;
        let ghost base = out@;
        assert(pairs_from(monitors@, i as int, (i + 1) as int) =~= Seq::<(usize, usize, bool)>::empty());
        assert(base + pairs_from(monitors@, i as int, (i + 1) as int) =~= base);
        while j < n
            invariant
                n == monitors@.len(),
                i < n,
                i + 1 <= j <= n,
                base == pairs_upto(monitors@, i as int),
                out@ == base + pairs_from(monitors@, i as int, j as int),
            decreases n - j,
        {
            match adjacency_of(&monitors[i], &monitors[j]) {
                Some(st) => {
                    out.push((i, j, st));
                },
                None => {},
            }
            j = j + 1;
            assert(out@ =~= base + pairs_from(monitors@, i as int, j as int));
        }
        i = i + 1;
    }
    out
}

/// Where a client sits in the configurator: in the gap between two monitors
/// (device names), or at a monitor's edge (device name, edge name).
#[derive(Debug)]
pub enum Placement {
    Gap(String, String),
    Side(String, String),
}

/// Which extreme a whole-desktop edge name selects: 0 = leftmost ("left"),
/// 1 = rightmost ("right"), 2 = topmost ("top"), 3 = bottommost (anything else).
pub open spec fn extreme_kind(edge: Seq<char>) -> int {
    if edge == seq!['l', 'e', 'f', 't'] {
        0
    } else if edge == seq!['r', 'i', 'g', 'h', 't'] {
        1
    } else if edge == seq!['t', 'o', 'p'] {
        2
    } else {
        3
    }
}

/// Whether monitor `i` is the one that owns the extreme of kind `w`: ties go
/// to the first monitor for leftmost/topmost and to the last one for
/// rightmost/bottommost (as `min_by_key` / `max_by_key` pick them).
pub open spec fn is_extreme(ms: Seq<MonitorInfo>, i: int, w: int) -> bool {
    &&& 0 <= i < ms.len()
    &&& w == 0 ==> (forall|k: int| 0 <= k < ms.len() ==> ms[i].left <= #[trigger] ms[k].left)
        && (forall|k: int| 0 <= k < i ==> ms[i].left < #[trigger] ms[k].left)
    &&& w == 1 ==> (forall|k: int| 0 <= k < ms.len() ==> ms[i].right >= #[trigger] ms[k].right)
        && (forall|k: int| i < k < ms.len() ==> ms[i].right > #[trigger] ms[k].right)
    &&& w == 2 ==> (forall|k: int| 0 <= k < ms.len() ==> ms[i].top <= #[trigger] ms[k].top)
        && (forall|k: int| 0 <= k < i ==> ms[i].top < #[trigger] ms[k].top)
    &&& w == 3 ==> (forall|k: int| 0 <= k < ms.len() ==> ms[i].bottom >= #[trigger] ms[k].bottom)
        && (forall|k: int| i < k < ms.len() ==> ms[i].bottom > #[trigger] ms[k].bottom)
}

/// The monitor a whole-desktop edge belongs to (none without monitors).
pub open spec fn edge_monitor_index(ms: Seq<MonitorInfo>, edge: Seq<char>) -> Option<int> {
    if ms.len() == 0 {
        None
    } else {
        Some(choose|i: int| #[trigger] is_extreme(ms, i, extreme_kind(edge)))
    }
}

/// Index of the monitor that owns a whole-desktop edge (see [`edge_monitor_index`]).
pub fn edge_monitor(monitors: &[MonitorInfo], edge: &str) -> (r: Option<usize>)
    ensures
        match edge_monitor_index(monitors@, edge@) {
            Some(i) => 0 <= i < monitors@.len() && r is Some && r->0 == i,
            None => r is None,
        },
        r matches Some(i) ==> i < monitors@.len(),
{
    let n = monitors.len();
    if n == 0 {
        return None;
    }
    proof {
        reveal_strlit("left");
        reveal_strlit("right");
        reveal_strlit("top");
        assert("left"@ =~= seq!['l', 'e', 'f', 't']);
        assert("right"@ =~= seq!['r', 'i', 'g', 'h', 't']);
        assert("top"@ =~= seq!['t', 'o', 'p']);
    }
    // 0 = min left, 1 = max right, 2 = min top, 3 = max bottom.
    let which: u8 = if str_eq(edge, "left") { 0 } else if str_eq(edge, "right") { 1 } else if str_eq(edge, "top") { 2 } else { 3 };
    let mut best: usize = 0;
    let mut i: usize = 1;
    while i < n
        invariant
            n == monitors@.len(),
            n > 0,
            best < i <= n,
            which == 0 ==> (forall|k: int| 0 <= k < i ==> monitors@[best as int].left <= #[trigger] monitors@[k].left)
                && (forall|k: int| 0 <= k < best ==> monitors@[best as int].left < #[trigger] monitors@[k].left),
            which == 1 ==> (forall|k: int| 0 <= k < i ==> monitors@[best as int].right >= #[trigger] monitors@[k].right)
                && (forall|k: int| best < k < i ==> monitors@[best as int].right > #[trigger] monitors@[k].right),
            which == 2 ==> (forall|k: int| 0 <= k < i ==> monitors@[best as int].top <= #[trigger] monitors@[k].top)
                && (forall|k: int| 0 <= k < best ==> monitors@[best as int].top < #[trigger] monitors@[k].top),
            which == 3 ==> (forall|k: int| 0 <= k < i ==> monitors@[best as int].bottom >= #[trigger] monitors@[k].bottom)
                && (forall|k: int| best < k < i ==> monitors@[best as int].bottom > #[trigger] monitors@[k].bottom),
        decreases n - i,
    {
        let m = &monitors[i];
        let b = &monitors[best];
        let better = if which == 0 {
            m.left < b.left
        } else if which == 1 {
            m.right >= b.right
        } else if which == 2 {
            m.top < b.top
        } else {
            m.bottom >= b.bottom
        };
        if better {
            best = i;
        }
        i = i + 1;
    }
    proof {
        let ms = monitors@;
        let w = extreme_kind(edge@);
        assert(w == which as int);
        assert(is_extreme(ms, best as int, w));
        let c = choose|i: int| #[trigger] is_extreme(ms, i, w);
        let bi = best as int;
        if c != bi {
            if w == 0 {
                if c < bi { assert(ms[bi].left < ms[c].left); } else { assert(ms[c].left < ms[bi].left); }
            } else if w == 1 {
                if c < bi { assert(ms[c].right > ms[bi].right); } else { assert(ms[bi].right > ms[c].right); }
            } else if w == 2 {
                if c < bi { assert(ms[bi].top < ms[c].top); } else { assert(ms[c].top < ms[bi].top); }
            } else {
                if c < bi { assert(ms[c].bottom > ms[bi].bottom); } else { assert(ms[bi].bottom > ms[c].bottom); }
            }
        }
    }
    Some(best)
}

} // verus!

verus! {

/// The characters of a placement: whether it is a gap, and its two names
/// (the two monitors, or the monitor and the edge).
pub open spec fn placement_view(p: Placement) -> (bool, Seq<char>, Seq<char>) {
    match p {
        Placement::Gap(a, b) => (true, a@, b@),
        Placement::Side(m, e) => (false, m@, e@),
    }
}

/// Edge names in side-code order: right, left, bottom, top.
pub open spec fn side_name(k: int) -> Seq<char> {
    if k == 0 {
        seq!['r', 'i', 'g', 'h', 't']
    } else if k == 1 {
        seq!['l', 'e', 'f', 't']
    } else if k == 2 {
        seq!['b', 'o', 't', 't', 'o', 'm']
    } else {
        seq!['t', 'o', 'p']
    }
}

/// Where a configured client is shown: its gap when it lists exactly two
/// monitors, else its monitor's edge, else the monitor owning its
/// whole-desktop edge (edge "right" when none is set; no monitor name when
/// there are no monitors).
pub open spec fn placement_of(c: ClientEntry, ms: Seq<MonitorInfo>) -> (bool, Seq<char>, Seq<char>) {
    let e = match c.edge {
        Some(s) => s@,
        None => side_name(0),
    };
    if c.between is Some && (c.between->0)@.len() == 2 {
        (true, (c.between->0)@[0]@, (c.between->0)@[1]@)
    } else if c.monitor is Some {
        (false, (c.monitor->0)@, e)
    } else {
        (false, match edge_monitor_index(ms, e) {
            Some(i) => ms[i].device@,
            None => Seq::empty(),
        }, e)
    }
}

/// Where a configured client is shown in the configurator.
pub fn client_placement(c: &ClientEntry, monitors: &[MonitorInfo]) -> (r: Placement)
    ensures
        placement_view(r) == placement_of(*c, monitors@),
{
    if let Some(b) = &c.between {
        if b.len() == 2 {
            return Placement::Gap(b[0].clone(), b[1].clone());
        }
    }
    proof {
        reveal_strlit("right");
        assert("right"@ =~= side_name(0));
    }
    let e = match &c.edge {
        Some(s) => s.clone(),
        None => String::from_str("right"),
    };
    if let Some(m) = &c.monitor {
        return Placement::Side(m.clone(), e);
    }
    assert(e@ == (match c.edge {
        Some(s) => s@,
        None => side_name(0),
    }));
    let es = e.as_str();
    let found = edge_monitor(monitors, es);
    assert(es@ == e@);
    let dev = match found {
        Some(i) => {
            assert(edge_monitor_index(monitors@, e@) == Some(i as int));
            monitors[i].device.clone()
        },
        None => {
            assert(edge_monitor_index(monitors@, e@) is None);
            let d = String::new();
            assert(d@ =~= Seq::<char>::empty());
            d
        },
    };
    Placement::Side(dev, e)
}

/// Put a client at a placement: a gap sets its two monitors and clears the
/// edge settings; a side sets monitor and edge and clears the gap.
pub fn set_placement(c: &mut ClientEntry, p: &Placement)
    ensures
        final(c).name == old(c).name,
        final(c).addr == old(c).addr,
        final(c).port == old(c).port,
        final(c).tls == old(c).tls,
        match *p {
            Placement::Gap(a, b) => {
                &&& final(c).between is Some
                &&& (final(c).between->0)@.len() == 2
                &&& (final(c).between->0)@[0]@ == a@
                &&& (final(c).between->0)@[1]@ == b@
                &&& final(c).edge is None
                &&& final(c).monitor is None
            },
            Placement::Side(m, e) => {
                &&& final(c).monitor is Some && (final(c).monitor->0)@ == m@
                &&& final(c).edge is Some && (final(c).edge->0)@ == e@
                &&& final(c).between is None
            },
        },
{
    match p {
        Placement::Gap(a, b) => {
            let mut v: Vec<String> = Vec::new();
            v.push(a.clone());
            v.push(b.clone());
            c.between = Some(v);
            c.edge = None;
            c.monitor = None;
        },
        Placement::Side(m, e) => {
            c.monitor = Some(m.clone());
            c.edge = Some(e.clone());
            c.between = None;
        },
    }
}

/// A placement that was set is the placement shown.
pub proof fn lemma_set_placement_shown(c: ClientEntry, p: (bool, Seq<char>, Seq<char>), ms: Seq<MonitorInfo>)
    requires
        p.0 ==> c.between is Some && (c.between->0)@.len() == 2 && (c.between->0)@[0]@ == p.1
            && (c.between->0)@[1]@ == p.2,
        !p.0 ==> c.monitor is Some && (c.monitor->0)@ == p.1 && c.edge is Some && (c.edge->0)@ == p.2
            && c.between is None,
    ensures
        placement_of(c, ms) == p,
{
}

/// The side placements of monitor `idx` for its sides below `k`, in side
/// order (right, left, bottom, top), free sides only.
pub open spec fn sides_of(ms: Seq<MonitorInfo>, idx: int, k: int) -> Seq<(bool, Seq<char>, Seq<char>)>
    decreases k,
{
    if k <= 0 {
        Seq::empty()
    } else {
        sides_of(ms, idx, k - 1) + if side_free(ms, idx, k - 1) {
            seq![(false, ms[idx].device@, side_name(k - 1))]
        } else {
            Seq::empty()
        }
    }
}

/// The side placements of the monitors below `upto`, monitor by monitor.
pub open spec fn side_options(ms: Seq<MonitorInfo>, upto: int) -> Seq<(bool, Seq<char>, Seq<char>)>
    decreases upto,
{
    if upto <= 0 {
        Seq::empty()
    } else {
        side_options(ms, upto - 1) + sides_of(ms, upto - 1, 4)
    }
}

/// The monitor indices in the adjacent pairs are in range.
pub proof fn lemma_pairs_in_range(ms: Seq<MonitorInfo>, u: int)
    requires
        u <= ms.len(),
    ensures
        forall|k: int| 0 <= k < pairs_upto(ms, u).len() ==> (#[trigger] pairs_upto(ms, u)[k]).0 < ms.len()
            && pairs_upto(ms, u)[k].1 < ms.len(),
    decreases u,
{
    if u > 0 {
        lemma_pairs_in_range(ms, u - 1);
        lemma_pairs_from_in_range(ms, u - 1, ms.len() as int);
        let a = pairs_upto(ms, u - 1);
        let b = pairs_from(ms, u - 1, ms.len() as int);
        assert forall|k: int| 0 <= k < pairs_upto(ms, u).len() implies (#[trigger] pairs_upto(ms, u)[k]).0 < ms.len()
            && pairs_upto(ms, u)[k].1 < ms.len() by {
            if k < a.len() {
                assert(pairs_upto(ms, u)[k] == a[k]);
            } else {
                assert(pairs_upto(ms, u)[k] == b[k - a.len()]);
            }
        }
    }
}

proof fn lemma_pairs_from_in_range(ms: Seq<MonitorInfo>, i: int, j: int)
    requires
        0 <= i,
        j <= ms.len(),
    ensures
        forall|k: int| 0 <= k < pairs_from(ms, i, j).len() ==> (#[trigger] pairs_from(ms, i, j)[k]).0 < ms.len()
            && pairs_from(ms, i, j)[k].1 < ms.len(),
    decreases j - i,
{
    if j > i + 1 {
        lemma_pairs_from_in_range(ms, i, j - 1);
        let rest = pairs_from(ms, i, j - 1);
        assert forall|k: int| 0 <= k < pairs_from(ms, i, j).len() implies (#[trigger] pairs_from(ms, i, j)[k]).0 < ms.len()
            && pairs_from(ms, i, j)[k].1 < ms.len() by {
            if k < rest.len() {
                assert(pairs_from(ms, i, j)[k] == rest[k]);
            }
        }
    }
}

/// Every place a client can be put: each gap between adjacent monitors, then
/// each free side of each monitor.
pub open spec fn options_of(ms: Seq<MonitorInfo>) -> Seq<(bool, Seq<char>, Seq<char>)> {
    pairs_upto(ms, ms.len() as int).map_values(|p: (usize, usize, bool)| (true, ms[p.0 as int].device@, ms[p.1 as int].device@))
        + side_options(ms, ms.len() as int)
}

fn side_label(k: usize) -> (r: String)
    requires
        k < 4,
    ensures
        r@ == side_name(k as int),
{
    proof {
        reveal_strlit("right");
        reveal_strlit("left");
        reveal_strlit("bottom");
        reveal_strlit("top");
        assert("right"@ =~= side_name(0));
        assert("left"@ =~= side_name(1));
        assert("bottom"@ =~= side_name(2));
        assert("top"@ =~= side_name(3));
    }
    if k == 0 {
        String::from_str("right")
    } else if k == 1 {
        String::from_str("left")
    } else if k == 2 {
        String::from_str("bottom")
    } else {
        String::from_str("top")
    }
}

/// Every place a client can be put (see [`options_of`]).
pub fn placement_options(monitors: &[MonitorInfo]) -> (r: Vec<Placement>)
    ensures
        r@.map_values(|p: Placement| placement_view(p)) == options_of(monitors@),
{
    let mut out: Vec<Placement> = Vec::new();
    let pairs = adjacent_pairs(monitors);
    let ghost ms = monitors@;
    let ghost gap_view = pairs@.map_values(|p: (usize, usize, bool)| (true, ms[p.0 as int].device@, ms[p.1 as int].device@));
    let np = pairs.len();
    let mut t: usize = 0;
    proof {
        lemma_pairs_in_range(ms, ms.len() as int);
    }
    while t < np
        invariant
            np == pairs@.len(),
            pairs@ == pairs_upto(ms, ms.len() as int),
            ms == monitors@,
            gap_view == pairs@.map_values(|p: (usize, usize, bool)| (true, ms[p.0 as int].device@, ms[p.1 as int].device@)),
            t <= np,
            forall|k: int| 0 <= k < np ==> (#[trigger] pairs@[k]).0 < ms.len() && pairs@[k].1 < ms.len(),
            out@.map_values(|p: Placement| placement_view(p)) == gap_view.take(t as int),
        decreases np - t,
    {
        let (i, j, _) = pairs[t];
        let ghost before = out@;
        out.push(Placement::Gap(monitors[i].device.clone(), monitors[j].device.clone()));
        assert(out@.map_values(|p: Placement| placement_view(p)) =~= before.map_values(|p: Placement| placement_view(p)).push(gap_view[t as int]));
        assert(gap_view.take(t + 1) =~= gap_view.take(t as int).push(gap_view[t as int]));
        t = t + 1;
        assert(out@.map_values(|p: Placement| placement_view(p)) =~= gap_view.take(t as int));
    }
    assert(gap_view.take(np as int) =~= gap_view);
    let n = monitors.len();
    let mut idx: usize = 0;
    while idx < n
        invariant
            n == ms.len(),
            ms == monitors@,
            idx <= n,
            out@.map_values(|p: Placement| placement_view(p)) == gap_view + side_options(ms, idx as int),
        decreases n - idx,
    {
        let free = free_sides(monitors, idx);
        let ghost base = out@.map_values(|p: Placement| placement_view(p));
        let mut k: usize = 0;
        while k < 4
            invariant
                n == ms.len(),
                ms == monitors@,
                idx < n,
                k <= 4,
                free@[0] == side_free(ms, idx as int, 0),
                free@[1] == side_free(ms, idx as int, 1),
                free@[2] == side_free(ms, idx as int, 2),
                free@[3] == side_free(ms, idx as int, 3),
                out@.map_values(|p: Placement| placement_view(p)) == base + sides_of(ms, idx as int, k as int),
            decreases 4 - k,
        {
            let ghost before = out@;
            if free[k] {
                out.push(Placement::Side(monitors[idx].device.clone(), side_label(k)));
                assert(out@.map_values(|p: Placement| placement_view(p)) =~= before.map_values(|p: Placement| placement_view(p)).push(
                    (false, ms[idx as int].device@, side_name(k as int)),
                ));
            }
            k = k + 1;
            assert(out@.map_values(|p: Placement| placement_view(p)) =~= base + sides_of(ms, idx as int, k as int));
        }
        idx = idx + 1;
    }
    out
}


// ─── Labels ──────────────────────────────────────────────────────────────────

/// Index of the first monitor (from `start`) whose device answers to `wanted`.
pub open spec fn first_info_answering(ms: Seq<MonitorInfo>, wanted: Seq<char>, start: int) -> Option<int>
    decreases ms.len() - start,
{
    if start < 0 || start >= ms.len() {
        None
    } else if answers_to(ms[start].device@, wanted) {
        Some(start)
    } else {
        first_info_answering(ms, wanted, start + 1)
    }
}

/// The monitor a device name designates ("DISPLAY1", "\\.\DISPLAY1" and "1"
/// all designate DISPLAY1), as an index.
pub open spec fn named_monitor(ms: Seq<MonitorInfo>, name: Seq<char>) -> Option<int> {
    first_info_answering(ms, wanted_name(name), 0)
}

proof fn lemma_first_info_in_range(ms: Seq<MonitorInfo>, wanted: Seq<char>, start: int)
    requires
        0 <= start,
    ensures
        first_info_answering(ms, wanted, start) matches Some(i) ==> start <= i < ms.len(),
    decreases ms.len() - start,
{
    if start < ms.len() && !answers_to(ms[start].device@, wanted) {
        lemma_first_info_in_range(ms, wanted, start + 1);
    }
}

fn find_info(monitors: &[MonitorInfo], name: &str) -> (r: Option<usize>)
    ensures
        match named_monitor(monitors@, name@) {
            Some(i) => r is Some && r->0 == i && i < monitors@.len(),
            None => r is None,
        },
{
    let wanted = wanted_name_of(name);
    let n = monitors.len();
    let mut i: usize = 0;
    proof {
        lemma_first_info_in_range(monitors@, wanted@, 0);
    }
    while i < n
        invariant
            n == monitors@.len(),
            i <= n,
            wanted@ == wanted_name(name@),
            first_info_answering(monitors@, wanted@, 0) == first_info_answering(monitors@, wanted@, i as int),
        decreases n - i,
    {
        if device_answers(monitors[i].device.as_str(), wanted.as_str()) {
            return Some(i);
        }
        i = i + 1;
    }
    None
}

/// The label of a device in the configurator: the number of the monitor it
/// designates, or the name itself when no monitor answers to it.
pub open spec fn monitor_number_of(ms: Seq<MonitorInfo>, device: Seq<char>) -> Seq<char> {
    match named_monitor(ms, device) {
        Some(i) => skip_non_digits(ms[i].device@),
        None => device,
    }
}

/// See [`monitor_number_of`].
pub fn monitor_number(monitors: &[MonitorInfo], device: &str) -> (r: String)
    ensures
        r@ == monitor_number_of(monitors@, device@),
{
    match find_info(monitors, device) {
        Some(i) => monitors[i].number(),
        None => device.to_owned(),
    }
}

/// The suffix telling how a gap's two monitors sit: " (apiladas)" when
/// stacked, " (lado a lado)" when side by side, nothing when either is unknown.
pub open spec fn pair_kind_of(ms: Seq<MonitorInfo>, a: Seq<char>, b: Seq<char>) -> Seq<char> {
    match (named_monitor(ms, a), named_monitor(ms, b)) {
        (Some(i), Some(j)) => if stacked(ms[i], ms[j]) { " (apiladas)"@ } else { " (lado a lado)"@ },
        _ => Seq::empty(),
    }
}

/// See [`pair_kind_of`].
pub fn pair_kind(monitors: &[MonitorInfo], a: &str, b: &str) -> (r: String)
    ensures
        r@ == pair_kind_of(monitors@, a@, b@),
{
    match (find_info(monitors, a), find_info(monitors, b)) {
        (Some(i), Some(j)) => {
            if pair_is_stacked(&monitors[i], &monitors[j]) {
                String::from_str(" (apiladas)")
            } else {
                String::from_str(" (lado a lado)")
            }
        },
        _ => String::new(),
    }
}

/// The phrase before "la pantalla N" for a side placement.
pub open spec fn side_phrase(e: Seq<char>) -> Seq<char> {
    if e == "left"@ {
        "A la izquierda de"@
    } else if e == "top"@ {
        "Arriba de"@
    } else if e == "bottom"@ {
        "Abajo de"@
    } else {
        "A la derecha de"@
    }
}

/// The label of a placement: "Entre pantalla A y B" with the pair's kind for
/// a gap; "<side phrase> la pantalla N" for a side.
pub open spec fn placement_label_of(ms: Seq<MonitorInfo>, p: (bool, Seq<char>, Seq<char>)) -> Seq<char> {
    if p.0 {
        "Entre pantalla "@ + monitor_number_of(ms, p.1) + " y "@ + monitor_number_of(ms, p.2) + pair_kind_of(ms, p.1, p.2)
    } else {
        side_phrase(p.2) + " la pantalla "@ + monitor_number_of(ms, p.1)
    }
}

fn side_phrase_of(e: &str) -> (r: &'static str)
    ensures
        r@ == side_phrase(e@),
{
    if str_eq(e, "left") {
        "A la izquierda de"
    } else if str_eq(e, "top") {
        "Arriba de"
    } else if str_eq(e, "bottom") {
        "Abajo de"
    } else {
        "A la derecha de"
    }
}

/// See [`placement_label_of`].
pub fn placement_label(monitors: &[MonitorInfo], p: &Placement) -> (r: String)
    ensures
        r@ == placement_label_of(monitors@, placement_view(*p)),
{
    match p {
        Placement::Gap(a, b) => {
            let mut s = String::from_str("Entre pantalla ");
            s.append(monitor_number(monitors, a.as_str()).as_str());
            s.append(" y ");
            s.append(monitor_number(monitors, b.as_str()).as_str());
            s.append(pair_kind(monitors, a.as_str(), b.as_str()).as_str());
            s
        },
        Placement::Side(m, e) => {
            let mut s = side_phrase_of(e.as_str()).to_owned();
            s.append(" la pantalla ");
            s.append(monitor_number(monitors, m.as_str()).as_str());
            s
        },
    }
}

/// Whether two placements are the same spot: device names compared as a
/// lookup compares them (trimmed, unprefixed, uppercased), edges exactly, and
/// a gap's two monitors in either order.
pub open spec fn same_placement(a: (bool, Seq<char>, Seq<char>), b: (bool, Seq<char>, Seq<char>)) -> bool {
    if !a.0 && !b.0 {
        wanted_name(a.1) == wanted_name(b.1) && a.2 == b.2
    } else if a.0 && b.0 {
        (wanted_name(a.1) == wanted_name(b.1) && wanted_name(a.2) == wanted_name(b.2)) || (wanted_name(a.1)
            == wanted_name(b.2) && wanted_name(a.2) == wanted_name(b.1))
    } else {
        false
    }
}

/// See [`same_placement`].
pub fn placement_eq(a: &Placement, b: &Placement) -> (r: bool)
    ensures
        r == same_placement(placement_view(*a), placement_view(*b)),
{
    match (a, b) {
        (Placement::Side(m1, e1), Placement::Side(m2, e2)) => {
            let n1 = wanted_name_of(m1.as_str());
            let n2 = wanted_name_of(m2.as_str());
            str_eq(n1.as_str(), n2.as_str()) && str_eq(e1.as_str(), e2.as_str())
        },
        (Placement::Gap(a1, a2), Placement::Gap(b1, b2)) => {
            let na1 = wanted_name_of(a1.as_str());
            let na2 = wanted_name_of(a2.as_str());
            let nb1 = wanted_name_of(b1.as_str());
            let nb2 = wanted_name_of(b2.as_str());
            (str_eq(na1.as_str(), nb1.as_str()) && str_eq(na2.as_str(), nb2.as_str())) || (str_eq(
                na1.as_str(),
                nb2.as_str(),
            ) && str_eq(na2.as_str(), nb1.as_str()))
        },
        _ => false,
    }
}

/// Sameness of placements is symmetric.
pub proof fn lemma_same_placement_symmetric(a: (bool, Seq<char>, Seq<char>), b: (bool, Seq<char>, Seq<char>))
    ensures
        same_placement(a, b) == same_placement(b, a),
{
}

/// A gap is the same spot whichever monitor is named first.
pub proof fn lemma_gap_order_free(x: Seq<char>, y: Seq<char>)
    ensures
        same_placement((true, x, y), (true, y, x)),
{
}

/// `s` cut to `max` characters with an ellipsis when longer.
pub open spec fn shortened(s: Seq<char>, max: nat) -> Seq<char> {
    if s.len() <= max {
        s
    } else {
        s.take(max as int).push('…')
    }
}

/// See [`shortened`].
pub fn shorten(s: &str, max: usize) -> (r: String)
    ensures
        r@ == shortened(s@, max as nat),
{
    let n = s.unicode_len();
    if n <= max {
        s.to_owned()
    } else {
        let mut out = s.substring_char(0, max).to_owned();
        push_char(&mut out, '…');
        assert(s@.subrange(0, max as int) =~= s@.take(max as int));
        out
    }
}

// ─── Dragging a monitor ──────────────────────────────────────────────────────

/// Where a dragged monitor is dropped against its neighbour.
#[derive(Debug, Clone, Copy, PartialEq, Eq, Structural)]
pub enum DropSide {
    Right,
    Left,
    Below,
    Above,
}

/// Top-left corner of monitor `m` snapped against monitor `n` on `side`,
/// edges aligned (wrapping on overflow).
pub open spec fn snapped(m: MonitorInfo, n: MonitorInfo, side: DropSide) -> (i32, i32) {
    match side {
        DropSide::Right => (n.right, n.top),
        DropSide::Left => (n.left.wrapping_sub(m.right.wrapping_sub(m.left)), n.top),
        DropSide::Below => (n.left, n.bottom),
        DropSide::Above => (n.left, n.top.wrapping_sub(m.bottom.wrapping_sub(m.top))),
    }
}

/// Index of the first primary monitor, or 0 when none is.
pub open spec fn primary_index(ms: Seq<MonitorInfo>, start: int) -> int
    decreases ms.len() - start,
{
    if start < 0 || start >= ms.len() {
        0
    } else if ms[start].primary {
        start
    } else {
        primary_index(ms, start + 1)
    }
}

/// Corner of monitor `i` after the drop, before normalizing.
pub open spec fn dropped_corner(ms: Seq<MonitorInfo>, moved: int, target: int, side: DropSide, i: int) -> (i32, i32) {
    if i == moved {
        snapped(ms[moved], ms[target], side)
    } else {
        (ms[i].left, ms[i].top)
    }
}

/// New positions of all monitors after monitor `moved` is dropped against
/// monitor `target` on `side`: each monitor's device and top-left corner,
/// shifted so that the primary monitor sits at (0, 0).
pub open spec fn drop_positions(ms: Seq<MonitorInfo>, moved: int, target: int, side: DropSide) -> Seq<(Seq<char>, i32, i32)> {
    let o = dropped_corner(ms, moved, target, side, primary_index(ms, 0));
    Seq::new(
        ms.len(),
        |i: int|
            {
                let c = dropped_corner(ms, moved, target, side, i);
                (ms[i].device@, c.0.wrapping_sub(o.0), c.1.wrapping_sub(o.1))
            },
    )
}

proof fn lemma_primary_index_in_range(ms: Seq<MonitorInfo>, start: int)
    requires
        0 <= start,
        ms.len() > 0,
    ensures
        0 <= primary_index(ms, start) < ms.len(),
    decreases ms.len() - start,
{
    if start < ms.len() && !ms[start].primary {
        lemma_primary_index_in_range(ms, start + 1);
    }
}

fn snap(m: &MonitorInfo, n: &MonitorInfo, side: DropSide) -> (r: (i32, i32))
    ensures
        r == snapped(*m, *n, side),
{
    match side {
        DropSide::Right => (n.right, n.top),
        DropSide::Left => (n.left.wrapping_sub(m.width()), n.top),
        DropSide::Below => (n.left, n.bottom),
        DropSide::Above => (n.left, n.top.wrapping_sub(m.height())),
    }
}

/// The positions to give every monitor after dragging monitor `moved` next
/// to monitor `target` on `side` (which the caller picks from the pointer).
/// Nothing moves (an empty list) when `target` is `moved` itself.
pub fn monitor_drop_positions(monitors: &[MonitorInfo], moved: usize, target: usize, side: DropSide) -> (r: Vec<(String, i32, i32)>)
    requires
        moved < monitors@.len(),
        target < monitors@.len(),
    ensures
        moved == target ==> r@.len() == 0,
        moved != target ==> r@.map_values(|t: (String, i32, i32)| (t.0@, t.1, t.2)) == drop_positions(monitors@, moved as int, target as int, side),
{
    let mut out: Vec<(String, i32, i32)> = Vec::new();
    if moved == target {
        return out;
    }
    let n = monitors.len();
    let ghost ms = monitors@;
    let corner = snap(&monitors[moved], &monitors[target], side);
    let mut prim: usize = 0;
    let mut k: usize = 0;
    while k < n && !monitors[k].primary
        invariant
            n == ms.len(),
            ms == monitors@,
            k <= n,
            primary_index(ms, 0) == primary_index(ms, k as int),
        decreases n - k,
    {
        k = k + 1;
    }
    proof {
        lemma_primary_index_in_range(ms, 0);
    }
    if k < n {
        prim = k;
    }
    assert(prim == primary_index(ms, 0));
    let (ox, oy) = if prim == moved { corner } else { (monitors[prim].left, monitors[prim].top) };
    let ghost want = drop_positions(ms, moved as int, target as int, side);
    let mut i: usize = 0;
    while i < n
        invariant
            n == ms.len(),
            ms == monitors@,
            moved < n,
            target < n,
            moved != target,
            corner == snapped(ms[moved as int], ms[target as int], side),
            (ox, oy) == dropped_corner(ms, moved as int, target as int, side, primary_index(ms, 0)),
            want == drop_positions(ms, moved as int, target as int, side),
            i <= n,
            out@.map_values(|t: (String, i32, i32)| (t.0@, t.1, t.2)) == want.take(i as int),
        decreases n - i,
    {
        let (x, y) = if i == moved { corner } else { (monitors[i].left, monitors[i].top) };
        let ghost before = out@;
        out.push((monitors[i].device.clone(), x.wrapping_sub(ox), y.wrapping_sub(oy)));
        proof {
            assert(want.take(i + 1) =~= want.take(i as int).push(want[i as int]));
        }
        i = i + 1;
        assert(out@.map_values(|t: (String, i32, i32)| (t.0@, t.1, t.2)) =~= want.take(i as int));
    }
    assert(want.take(n as int) =~= want);
    out
}

/// After a drop, the primary monitor sits at (0, 0).
pub proof fn lemma_drop_keeps_primary_at_origin(ms: Seq<MonitorInfo>, moved: int, target: int, side: DropSide)
    requires
        ms.len() > 0,
    ensures
        drop_positions(ms, moved, target, side)[primary_index(ms, 0)].1 == 0,
        drop_positions(ms, moved, target, side)[primary_index(ms, 0)].2 == 0,
{
    lemma_primary_index_in_range(ms, 0);
    let o = dropped_corner(ms, moved, target, side, primary_index(ms, 0));
    let a = o.0;
    let b = o.1;
    assert(a.wrapping_sub(a) == 0) by (bit_vector);
    assert(b.wrapping_sub(b) == 0) by (bit_vector);
}

// ─── Listing order ───────────────────────────────────────────────────────────

/// Whether the monitors are in increasing order of their left edge.
pub open spec fn sorted_by_left(s: Seq<MonitorInfo>) -> bool {
    forall|i: int, j: int| 0 <= i < j < s.len() ==> s[i].left <= s[j].left
}

/// Whether `r` holds the monitors of `orig` rearranged by `perm` (`r[k]` is
/// `orig[perm[k]]`, each listed monitor used once), monitors with the same left
/// edge keeping their listed order.
pub open spec fn stable_arrangement(orig: Seq<MonitorInfo>, r: Seq<MonitorInfo>, perm: Seq<int>) -> bool {
    &&& perm.len() == r.len() == orig.len()
    &&& forall|k: int| 0 <= k < r.len() ==> 0 <= #[trigger] perm[k] < orig.len() && r[k] == orig[perm[k]]
    &&& forall|a: int, b: int| 0 <= a < b < r.len() ==> #[trigger] perm[a] != #[trigger] perm[b]
    &&& forall|a: int, b: int| 0 <= a < b < r.len() && r[a].left == r[b].left ==> #[trigger] perm[a] < #[trigger] perm[b]
}

/// The monitors in order of their left edge, keeping the listed order among
/// monitors with the same left edge (a stable sort, as the configurator shows them).
pub fn sort_by_left(monitors: Vec<MonitorInfo>) -> (r: Vec<MonitorInfo>)
    ensures
        sorted_by_left(r@),
        exists|perm: Seq<int>| stable_arrangement(monitors@, r@, perm),
{
    let ghost orig = monitors@;
    let mut rest = monitors;
    let mut out: Vec<MonitorInfo> = Vec::new();
    let ghost mut perm: Seq<int> = Seq::empty();
    let n = rest.len();
    let mut i: usize = 0;
    while i < n
        invariant
            n == orig.len(),
            i <= n,
            rest@ == orig.skip(i as int),
            sorted_by_left(out@),
            perm.len() == out@.len() == i,
            forall|k: int| 0 <= k < out@.len() ==> 0 <= #[trigger] perm[k] < i && out@[k] == orig[perm[k]],
            forall|a: int, b: int| 0 <= a < b < out@.len() ==> #[trigger] perm[a] != #[trigger] perm[b],
            forall|a: int, b: int| 0 <= a < b < out@.len() && out@[a].left == out@[b].left ==> #[trigger] perm[a] < #[trigger] perm[b],
        decreases n - i,
    {
        let ghost before_rest = rest@;
        let m = rest.remove(0);
        assert(m == orig[i as int]) by {
            assert(before_rest[0] == orig.skip(i as int)[0]);
        }
        assert(rest@ =~= orig.skip(i + 1));
        let len = out.len();
        let mut p: usize = 0;
        while p < len && out[p].left <= m.left
            invariant
                len == out@.len(),
                p <= len,
                forall|k: int| 0 <= k < p ==> out@[k].left <= m.left,
            decreases len - p,
        {
            p = p + 1;
        }
        let ghost old_out = out@;
        let ghost old_perm = perm;
        proof {
            assert forall|k: int| p <= k < len implies old_out[k].left > m.left by {
                if p < len {
                    assert(old_out[p as int].left > m.left);
                    assert(old_out[p as int].left <= old_out[k].left);
                }
            }
        }
        out.insert(p, m);
        proof {
            perm = old_perm.insert(p as int, i as int);
            assert forall|k: int| 0 <= k < out@.len() implies 0 <= #[trigger] perm[k] < i + 1 && out@[k] == orig[perm[k]] by {
                if k < p {
                    assert(perm[k] == old_perm[k]);
                } else if k > p {
                    assert(perm[k] == old_perm[k - 1]);
                }
            }
            assert forall|a: int, b: int| 0 <= a < b < out@.len() implies #[trigger] perm[a] != #[trigger] perm[b] by {
                if a < p && b < p {
                    assert(old_perm[a] != old_perm[b]);
                } else if a < p && b > p {
                    assert(old_perm[a] != old_perm[b - 1]);
                } else if a > p && b > p {
                    assert(old_perm[a - 1] != old_perm[b - 1]);
                } else if a == p {
                    assert(old_perm[b - 1] < i);
                } else {
                    assert(old_perm[a] < i);
                }
            }
            assert forall|a: int, b: int| 0 <= a < b < out@.len() && out@[a].left == out@[b].left implies #[trigger] perm[a] < #[trigger] perm[b] by {
                if a < p && b < p {
                } else if a < p && b > p {
                    assert(old_out[a].left == old_out[b - 1].left);
                } else if a > p && b > p {
                    assert(old_out[a - 1].left == old_out[b - 1].left);
                } else if a == p {
                    assert(old_out[b - 1].left > m.left);
                } else {
                    assert(old_perm[a] < i);
                }
            }
            assert forall|a: int, b: int| 0 <= a < b < out@.len() implies out@[a].left <= out@[b].left by {
                if a < p && b < p {
                    assert(old_out[a].left <= old_out[b].left);
                } else if a < p && b > p {
                    assert(old_out[a].left <= old_out[b - 1].left);
                } else if a > p && b > p {
                    assert(old_out[a - 1].left <= old_out[b - 1].left);
                } else if a == p {
                    assert(old_out[b - 1].left > m.left);
                } else {
                    assert(old_out[a].left <= m.left);
                }
            }
        }
        i = i + 1;
    }
    assert(stable_arrangement(orig, out@, perm));
    out
}

} // verus!
