//! From configuration and the real monitor geometry to where each client
//! sits: an outer edge of the desktop, a free edge of one monitor, or the gap
//! between two adjacent monitors (side by side or stacked, whichever their
//! geometry shows).
use vstd::prelude::*;
use crate::config::{ClientEntry, ServerConfig};
use crate::edge::{Edge, edge_named, side_code};
use crate::hook::{Layout, Portal, Rect, max_i32, min_i32};
use crate::monitors::{Monitor, find, first_answering, wanted_name};
use crate::text::{decimal, lowercase, push_char, push_decimal, str_eq};

verus! {

/// Rectangle of a monitor.
pub open spec fn rect_of(m: Monitor) -> Rect {
    Rect { left: m.left, top: m.top, right: m.right, bottom: m.bottom }
}

fn monitor_rect(m: &Monitor) -> (r: Rect)
    ensures
        r == rect_of(*m),
{
    Rect { left: m.left, top: m.top, right: m.right, bottom: m.bottom }
}

/// Side code an edge name selects, right when the name is unknown.
pub open spec fn side_for(edge: Seq<char>) -> u8 {
    match edge_named(lowercase(edge)) {
        Some(e) => side_code(e),
        None => 0,
    }
}

/// Client past the outer `edge` of the desktop `screen` (right when the
/// edge name is unknown).
pub fn layout_edge(edge: &str, screen: Rect) -> (r: Layout)
    ensures
        r == (Layout::Edge { side: side_for(edge@), screen }),
{
    let side = match Edge::from_str(edge) {
        Some(e) => e.side(),
        None => 0,
    };
    Layout::Edge { side, screen }
}

/// The monitor a name finds in `ms`.
pub open spec fn found(ms: Seq<Monitor>, name: Seq<char>) -> Option<Monitor> {
    match first_answering(ms, wanted_name(name), 0) {
        Some(i) => Some(ms[i]),
        None => None,
    }
}

/// Client past the `edge` of the monitor named `mon_name`; `None` when the
/// monitor is not found or the edge name is unknown.
pub fn layout_monitor_side(mon_name: &str, edge: &str, mons: &[Monitor]) -> (r: Option<Layout>)
    ensures
        r == (match (found(mons@, mon_name@), edge_named(lowercase(edge@))) {
            (Some(m), Some(e)) => Some(Layout::MonitorSide { rect: rect_of(m), side: side_code(e) }),
            _ => None,
        }),
{
    let m = match find(mons, mon_name) {
        Some(m) => m,
        None => {
            return None;
        },
    };
    let side = match Edge::from_str(edge) {
        Some(e) => e.side(),
        None => {
            return None;
        },
    };
    Some(Layout::MonitorSide { rect: monitor_rect(m), side })
}

/// Length of the overlap of [lo1, hi1) and [lo2, hi2), 0 when they do not overlap.
pub open spec fn overlap(lo1: i32, hi1: i32, lo2: i32, hi2: i32) -> i32 {
    let lo = max_i32(lo1, lo2);
    let hi = min_i32(hi1, hi2);
    if lo < hi { hi.wrapping_sub(lo) } else { 0 }
}

fn overlap_len(lo1: i32, hi1: i32, lo2: i32, hi2: i32) -> (r: i32)
    ensures
        r == overlap(lo1, hi1, lo2, hi2),
{
    let lo = if lo1 >= lo2 { lo1 } else { lo2 };
    let hi = if hi1 <= hi2 { hi1 } else { hi2 };
    if lo < hi { hi.wrapping_sub(lo) } else { 0 }
}

/// The gap between monitors `a` and `b`: side by side when they share more
/// height than width (and some), stacked when they share some width; else none.
pub open spec fn gap_between(a: Monitor, b: Monitor) -> Option<Layout> {
    let y_ov = overlap(a.top, a.bottom, b.top, b.bottom);
    let x_ov = overlap(a.left, a.right, b.left, b.right);
    if y_ov >= x_ov && y_ov > 0 {
        let (l, r) = if a.left <= b.left { (a, b) } else { (b, a) };
        Some(Layout::Between { left_mon: rect_of(l), right_mon: rect_of(r), boundary_x: l.right })
    } else if x_ov > 0 {
        let (t, bo) = if a.top <= b.top { (a, b) } else { (b, a) };
        Some(Layout::Stacked { top_mon: rect_of(t), bottom_mon: rect_of(bo), boundary_y: t.bottom })
    } else {
        None
    }
}

/// Client in the gap between the monitors named `a_name` and `b_name`;
/// `None` when either is not found or they do not share an edge.
pub fn layout_between(a_name: &str, b_name: &str, mons: &[Monitor]) -> (r: Option<Layout>)
    ensures
        r == (match (found(mons@, a_name@), found(mons@, b_name@)) {
            (Some(a), Some(b)) => gap_between(a, b),
            _ => None,
        }),
{
    let a = match find(mons, a_name) {
        Some(m) => m,
        None => {
            return None;
        },
    };
    let b = match find(mons, b_name) {
        Some(m) => m,
        None => {
            return None;
        },
    };
    let y_ov = overlap_len(a.top, a.bottom, b.top, b.bottom);
    let x_ov = overlap_len(a.left, a.right, b.left, b.right);
    if y_ov >= x_ov && y_ov > 0 {
        let (l, r) = if a.left <= b.left { (a, b) } else { (b, a) };
        Some(Layout::Between { left_mon: monitor_rect(l), right_mon: monitor_rect(r), boundary_x: l.right })
    } else if x_ov > 0 {
        let (t, bo) = if a.top <= b.top { (a, b) } else { (b, a) };
        Some(Layout::Stacked { top_mon: monitor_rect(t), bottom_mon: monitor_rect(bo), boundary_y: t.bottom })
    } else {
        None
    }
}

/// Index of the leftmost monitor other than `skip` (the first such when
/// several share the smallest left), as a stable sort by left edge orders them.
pub open spec fn is_leftmost(ms: Seq<Monitor>, i: int, skip: int) -> bool {
    &&& 0 <= i < ms.len()
    &&& i != skip
    &&& forall|k: int| 0 <= k < ms.len() && k != skip ==> ms[i].left <= #[trigger] ms[k].left
    &&& forall|k: int| 0 <= k < i && k != skip ==> ms[i].left < #[trigger] ms[k].left
}

fn leftmost(ms: &[Monitor], skip: usize) -> (r: usize)
    requires
        ms@.len() >= 2,
        skip <= ms@.len(),
    ensures
        is_leftmost(ms@, r as int, skip as int),
{
    let n = ms.len();
    let mut best: usize = if skip == 0 { 1 } else { 0 };
    let mut i: usize = best + 1;
    while i < n
        invariant
            n == ms@.len(),
            n >= 2,
            best < n,
            best != skip,
            best < i <= n,
            forall|k: int| 0 <= k < i && k != skip ==> ms@[best as int].left <= #[trigger] ms@[k].left,
            forall|k: int| 0 <= k < best && k != skip ==> ms@[best as int].left < #[trigger] ms@[k].left,
        decreases n - i,
    {
        if i != skip && ms[i].left < ms[best].left {
            best = i;
        }
        i = i + 1;
    }
    best
}

/// Whether a legacy layout section asks for the "between" mode.
pub open spec fn wants_between(c: ServerConfig) -> bool {
    c.layout is Some && (c.layout->0).mode@ == seq!['b', 'e', 't', 'w', 'e', 'e', 'n']
}

/// The legacy single-client placement: "between" mode with the two named
/// monitors (or, when either name is empty, the two leftmost ones), else the
/// configured outer edge — also when the gap cannot be formed.
pub open spec fn legacy_layout(c: ServerConfig, ms: Seq<Monitor>, screen: Rect) -> Layout {
    let edge = Layout::Edge { side: side_for(c.edge@), screen };
    if !wants_between(c) {
        edge
    } else {
        let l = c.layout->0;
        if l.monitor_left@.len() > 0 && l.monitor_right@.len() > 0 {
            match (found(ms, l.monitor_left@), found(ms, l.monitor_right@)) {
                (Some(a), Some(b)) => match gap_between(a, b) {
                    Some(g) => g,
                    None => edge,
                },
                _ => edge,
            }
        } else if ms.len() < 2 {
            edge
        } else {
            let i0 = choose|i: int| #[trigger] is_leftmost(ms, i, -1);
            let i1 = choose|i: int| #[trigger] is_leftmost(ms, i, i0);
            match (found(ms, ms[i0].device@), found(ms, ms[i1].device@)) {
                (Some(a), Some(b)) => match gap_between(a, b) {
                    Some(g) => g,
                    None => edge,
                },
                _ => edge,
            }
        }
    }
}

proof fn lemma_leftmost_unique(ms: Seq<Monitor>, i: int, j: int, skip: int)
    requires
        is_leftmost(ms, i, skip),
        is_leftmost(ms, j, skip),
    ensures
        i == j,
{
    if i < j {
        assert(ms[j].left < ms[i].left);
    } else if j < i {
        assert(ms[i].left < ms[j].left);
    }
}

/// Build the legacy single-client placement from the settings and the real
/// monitors (see [`legacy_layout`]).
pub fn build_layout(config: &ServerConfig, mons: &[Monitor], screen: Rect) -> (r: Layout)
    ensures
        r == legacy_layout(*config, mons@, screen),
{
    let edge = layout_edge(config.edge.as_str(), screen);
    let l = match &config.layout {
        Some(l) => l,
        None => {
            return edge;
        },
    };
    proof {
        reveal_strlit("between");
        assert("between"@ =~= seq!['b', 'e', 't', 'w', 'e', 'e', 'n']);
    }
    if !str_eq(l.mode.as_str(), "between") {
        return edge;
    }
    let found_pair = if l.monitor_left.unicode_len() > 0 && l.monitor_right.unicode_len() > 0 {
        layout_between(l.monitor_left.as_str(), l.monitor_right.as_str(), mons)
    } else {
        if mons.len() < 2 {
            return edge;
        }
        let i0 = leftmost(mons, mons.len());
        let i1 = leftmost(mons, i0);
        proof {
            let c0 = choose|i: int| #[trigger] is_leftmost(mons@, i, -1);
            assert(is_leftmost(mons@, i0 as int, -1));
            lemma_leftmost_unique(mons@, c0, i0 as int, -1);
            let c1 = choose|i: int| #[trigger] is_leftmost(mons@, i, i0 as int);
            lemma_leftmost_unique(mons@, c1, i1 as int, i0 as int);
        }
        layout_between(mons[i0].device.as_str(), mons[i1].device.as_str(), mons)
    };
    match found_pair {
        Some(g) => g,
        None => edge,
    }
}

/// A configured client resolved to its label, address and placement.
#[derive(Debug)]
pub struct ResolvedClient {
    pub id: usize,
    pub name: String,
    /// "address:port".
    pub addr: String,
    pub tls: bool,
    pub layout: Layout,
}

/// "right".
pub open spec fn right_word() -> Seq<char> {
    seq!['r', 'i', 'g', 'h', 't']
}

/// Edge name a client entry uses: its own, else "right".
pub open spec fn entry_edge(c: ClientEntry) -> Seq<char> {
    match c.edge {
        Some(e) => e@,
        None => right_word(),
    }
}

/// Where a configured client sits: between its two named monitors when it
/// lists exactly two, else at the edge of its named monitor, else past the
/// desktop edge; a placement that cannot be formed falls back to the desktop edge.
pub open spec fn client_layout(c: ClientEntry, ms: Seq<Monitor>, screen: Rect) -> Layout {
    let edge = Layout::Edge { side: side_for(entry_edge(c)), screen };
    if c.between is Some && (c.between->0)@.len() == 2 {
        let pair = (c.between->0)@;
        match (found(ms, pair[0]@), found(ms, pair[1]@)) {
            (Some(a), Some(b)) => match gap_between(a, b) {
                Some(g) => g,
                None => edge,
            },
            _ => edge,
        }
    } else if c.monitor is Some {
        match (found(ms, (c.monitor->0)@), edge_named(lowercase(entry_edge(c)))) {
            (Some(m), Some(e)) => Layout::MonitorSide { rect: rect_of(m), side: side_code(e) },
            _ => edge,
        }
    } else {
        edge
    }
}

/// Label of client `id`: its name, or "client<id>" when unnamed.
pub open spec fn client_label(c: ClientEntry, id: nat) -> Seq<char> {
    if c.name@.len() == 0 {
        seq!['c', 'l', 'i', 'e', 'n', 't'] + decimal(id)
    } else {
        c.name@
    }
}

/// "address:port".
pub open spec fn addr_port(addr: Seq<char>, port: u16) -> Seq<char> {
    addr + seq![':'] + decimal(port as nat)
}

fn format_addr(addr: &str, port: u16) -> (r: String)
    ensures
        r@ == addr_port(addr@, port),
{
    let mut s = String::from_str(addr);
    push_char(&mut s, ':');
    push_decimal(&mut s, port as u64);
    s
}

/// Resolve one configured client.
pub fn resolve_entry(id: usize, c: &ClientEntry, mons: &[Monitor], screen: Rect) -> (r: ResolvedClient)
    ensures
        r.id == id,
        r.name@ == client_label(*c, id as nat),
        r.addr@ == addr_port(c.addr@, c.port),
        r.tls == c.tls,
        r.layout == client_layout(*c, mons@, screen),
{
    proof {
        reveal_strlit("right");
        assert("right"@ =~= right_word());
    }
    let edge_name: &str = match &c.edge {
        Some(e) => e.as_str(),
        None => "right",
    };
    let fallback = layout_edge(edge_name, screen);
    let mut layout = fallback;
    let mut placed = false;
    if let Some(pair) = &c.between {
        if pair.len() == 2 {
            placed = true;
            if let Some(g) = layout_between(pair[0].as_str(), pair[1].as_str(), mons) {
                layout = g;
            }
        }
    }
    if !placed {
        if let Some(m) = &c.monitor {
            if let Some(g) = layout_monitor_side(m.as_str(), edge_name, mons) {
                layout = g;
            }
        }
    }
    let name = if c.name.unicode_len() == 0 {
        let mut s = String::from_str("client");
        proof {
            reveal_strlit("client");
            assert("client"@ =~= seq!['c', 'l', 'i', 'e', 'n', 't']);
        }
        push_decimal(&mut s, id as u64);
        s
    } else {
        c.name.clone()
    };
    ResolvedClient { id, name, addr: format_addr(c.addr.as_str(), c.port), tls: c.tls, layout }
}

/// All clients to serve: the configured list, or, when it is empty, one
/// client (id 0, "client") from the legacy single-client settings.
pub fn resolve_clients(config: &ServerConfig, mons: &[Monitor], screen: Rect) -> (r: Vec<ResolvedClient>)
    ensures
        config.clients@.len() > 0 ==> {
            &&& r@.len() == config.clients@.len()
            &&& forall|k: int| 0 <= k < r@.len() ==> {
                &&& (#[trigger] r@[k]).id == k
                &&& r@[k].name@ == client_label(config.clients@[k], k as nat)
                &&& r@[k].addr@ == addr_port(config.clients@[k].addr@, config.clients@[k].port)
                &&& r@[k].tls == config.clients@[k].tls
                &&& r@[k].layout == client_layout(config.clients@[k], mons@, screen)
            }
        },
        config.clients@.len() == 0 ==> {
            &&& r@.len() == 1
            &&& r@[0].id == 0
            &&& r@[0].name@ == seq!['c', 'l', 'i', 'e', 'n', 't']
            &&& r@[0].addr@ == addr_port(config.client_addr@, config.port)
            &&& r@[0].tls == config.tls
            &&& r@[0].layout == legacy_layout(*config, mons@, screen)
        },
{
    let mut out: Vec<ResolvedClient> = Vec::new();
    let n = config.clients.len();
    if n > 0 {
        let mut i: usize = 0;
        while i < n
            invariant
                n == config.clients@.len(),
                i <= n,
                out@.len() == i,
                forall|k: int| 0 <= k < i ==> {
                    &&& (#[trigger] out@[k]).id == k
                    &&& out@[k].name@ == client_label(config.clients@[k], k as nat)
                    &&& out@[k].addr@ == addr_port(config.clients@[k].addr@, config.clients@[k].port)
                    &&& out@[k].tls == config.clients@[k].tls
                    &&& out@[k].layout == client_layout(config.clients@[k], mons@, screen)
                },
            decreases n - i,
        {
            let rc = resolve_entry(i, &config.clients[i], mons, screen);
            out.push(rc);
            i = i + 1;
        }
        return out;
    }
    proof {
        reveal_strlit("client");
        assert("client"@ =~= seq!['c', 'l', 'i', 'e', 'n', 't']);
    }
    out.push(ResolvedClient {
        id: 0,
        name: String::from_str("client"),
        addr: format_addr(config.client_addr.as_str(), config.port),
        tls: config.tls,
        layout: build_layout(config, mons, screen),
    });
    out
}

/// One portal per resolved client, in order.
pub fn portals_of(clients: &[ResolvedClient]) -> (r: Vec<Portal>)
    ensures
        r@.len() == clients@.len(),
        forall|k: int| 0 <= k < r@.len() ==> #[trigger] r@[k] == (Portal { client: clients@[k].id, layout: clients@[k].layout }),
{
    let mut out: Vec<Portal> = Vec::new();
    let n = clients.len();
    let mut i: usize = 0;
    while i < n
        invariant
            n == clients@.len(),
            i <= n,
            out@.len() == i,
            forall|k: int| 0 <= k < i ==> #[trigger] out@[k] == (Portal { client: clients@[k].id, layout: clients@[k].layout }),
        decreases n - i,
    {
        out.push(Portal { client: clients[i].id, layout: clients[i].layout });
        i = i + 1;
    }
    out
}

/// Whether any client uses TLS (then the host builds its pinning connector).
pub fn any_tls(clients: &[ResolvedClient]) -> (r: bool)
    ensures
        r == exists|k: int| 0 <= k < clients@.len() && #[trigger] clients@[k].tls,
{
    let n = clients.len();
    let mut i: usize = 0;
    while i < n
        invariant
            n == clients@.len(),
            i <= n,
            forall|k: int| 0 <= k < i ==> !#[trigger] clients@[k].tls,
        decreases n - i,
    {
        if clients[i].tls {
            return true;
        }
        i = i + 1;
    }
    false
}

/// The gap between two monitors does not depend on the order they are named
/// in, when their left edges differ and their top edges differ.
pub proof fn lemma_gap_order_free(a: Monitor, b: Monitor)
    requires
        a.left != b.left,
        a.top != b.top,
    ensures
        gap_between(a, b) == gap_between(b, a),
{
}

} // verus!
