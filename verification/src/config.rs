//! Configuration model shared by the host, the client and the configurator:
//! the settings with their defaults, filling in missing settings, the role a
//! machine plays, and the trusted-fingerprint list.
use vstd::prelude::*;
use crate::text::{
    lines, split_lines, trim, trim_str, starts_with_char, str_eq, push_char,
    lemma_next_newline_bounds, next_newline, lines_from,
};

verus! {

/// Default port the client listens on and the host connects to.
pub const DEFAULT_PORT: u16 = 7547;
/// Default heartbeat interval of the host (ms).
pub const DEFAULT_HEARTBEAT_MS: u64 = 1000;
/// Default time without heartbeat after which a client drops the host (ms).
pub const DEFAULT_HEARTBEAT_TIMEOUT_MS: u64 = 5000;

/// Legacy two-monitor layout settings.
#[derive(Debug)]
pub struct LayoutConfig {
    /// "edge" (classic) or "between" (client between two monitors).
    pub mode: String,
    /// Monitor at the client's left; empty = pick automatically.
    pub monitor_left: String,
    /// Monitor at the client's right.
    pub monitor_right: String,
}

/// One client machine as configured on the host.
#[derive(Debug)]
pub struct ClientEntry {
    /// Friendly name for logs.
    pub name: String,
    /// Address of the client.
    pub addr: String,
    /// Port the client listens on.
    pub port: u16,
    /// Verify the client's certificate fingerprint.
    pub tls: bool,
    /// Placement: the two monitors the client sits between.
    pub between: Option<Vec<String>>,
    /// Placement: an edge ("right"/"left"/"top"/"bottom").
    pub edge: Option<String>,
    /// With `edge`: the monitor whose edge it is.
    pub monitor: Option<String>,
}

/// Host settings.
#[derive(Debug)]
pub struct ServerConfig {
    pub client_addr: String,
    pub port: u16,
    pub edge: String,
    pub heartbeat_ms: u64,
    pub clipboard: bool,
    pub tls: bool,
    pub layout: Option<LayoutConfig>,
    pub clients: Vec<ClientEntry>,
}

/// Client settings.
#[derive(Debug)]
pub struct ClientConfig {
    pub port: u16,
    pub bind_addr: String,
    pub kb_layout: String,
    pub heartbeat_timeout_ms: u64,
    pub clipboard: bool,
    pub tls: bool,
}

/// Host settings as read from a file, where any may be missing.
#[derive(Debug)]
pub struct ServerConfigPartial {
    pub client_addr: Option<String>,
    pub port: Option<u16>,
    pub edge: Option<String>,
    pub heartbeat_ms: Option<u64>,
    pub clipboard: Option<bool>,
    pub tls: Option<bool>,
    pub layout: Option<LayoutConfig>,
    pub clients: Option<Vec<ClientEntry>>,
}

/// Client settings as read from a file, where any may be missing.
#[derive(Debug)]
pub struct ClientConfigPartial {
    pub port: Option<u16>,
    pub bind_addr: Option<String>,
    pub kb_layout: Option<String>,
    pub heartbeat_timeout_ms: Option<u64>,
    pub clipboard: Option<bool>,
    pub tls: Option<bool>,
}

impl ClientEntry {
    /// A new client entry: no name or address, default port, no TLS, no placement.
    pub fn new() -> (r: Self)
        ensures
            r.name@.len() == 0,
            r.addr@.len() == 0,
            r.port == DEFAULT_PORT,
            !r.tls,
            r.between is None,
            r.edge is None,
            r.monitor is None,
    {
        ClientEntry {
            name: String::new(),
            addr: String::new(),
            port: DEFAULT_PORT,
            tls: false,
            between: None,
            edge: None,
            monitor: None,
        }
    }
}

/// Whether `c` holds the host defaults.
pub open spec fn is_default_server(c: ServerConfig) -> bool {
    &&& c.client_addr@ == "192.168.1.42"@
    &&& c.port == DEFAULT_PORT
    &&& c.edge@ == "right"@
    &&& c.heartbeat_ms == DEFAULT_HEARTBEAT_MS
    &&& c.clipboard
    &&& !c.tls
    &&& c.layout is None
    &&& c.clients@.len() == 0
}

/// Whether `c` holds the client defaults.
pub open spec fn is_default_client(c: ClientConfig) -> bool {
    &&& c.port == DEFAULT_PORT
    &&& c.bind_addr@ == "0.0.0.0"@
    &&& c.kb_layout@.len() == 0
    &&& c.heartbeat_timeout_ms == DEFAULT_HEARTBEAT_TIMEOUT_MS
    &&& c.clipboard
    &&& c.tls
}

impl Default for ServerConfig {
    /// Host defaults: client at 192.168.1.42:7547 past the right edge,
    /// heartbeat every second, clipboard shared, no TLS, no clients listed.
    fn default() -> (r: Self)
        ensures
            is_default_server(r),
    {
        ServerConfig {
            client_addr: String::from_str("192.168.1.42"),
            port: DEFAULT_PORT,
            edge: String::from_str("right"),
            heartbeat_ms: DEFAULT_HEARTBEAT_MS,
            clipboard: true,
            tls: false,
            layout: None,
            clients: Vec::new(),
        }
    }
}

impl Default for ClientConfig {
    /// Client defaults: listen on 0.0.0.0:7547, detect the keyboard layout,
    /// 5 s heartbeat timeout, clipboard shared, TLS on.
    fn default() -> (r: Self)
        ensures
            is_default_client(r),
    {
        ClientConfig {
            port: DEFAULT_PORT,
            bind_addr: String::from_str("0.0.0.0"),
            kb_layout: String::new(),
            heartbeat_timeout_ms: DEFAULT_HEARTBEAT_TIMEOUT_MS,
            clipboard: true,
            tls: true,
        }
    }
}

/// Host settings from a partial file: each setting present is kept, each
/// missing one takes its default.
pub fn server_config_from(p: ServerConfigPartial) -> (r: ServerConfig)
    ensures
        r.client_addr@ == (match p.client_addr { Some(s) => s@, None => "192.168.1.42"@ }),
        r.port == (match p.port { Some(v) => v, None => DEFAULT_PORT }),
        r.edge@ == (match p.edge { Some(s) => s@, None => "right"@ }),
        r.heartbeat_ms == (match p.heartbeat_ms { Some(v) => v, None => DEFAULT_HEARTBEAT_MS }),
        r.clipboard == (match p.clipboard { Some(v) => v, None => true }),
        r.tls == (match p.tls { Some(v) => v, None => false }),
        r.layout == p.layout,
        r.clients@ == (match p.clients { Some(v) => v@, None => Seq::<ClientEntry>::empty() }),
{
    let d = ServerConfig::default();
    ServerConfig {
        client_addr: match p.client_addr { Some(s) => s, None => d.client_addr },
        port: match p.port { Some(v) => v, None => d.port },
        edge: match p.edge { Some(s) => s, None => d.edge },
        heartbeat_ms: match p.heartbeat_ms { Some(v) => v, None => d.heartbeat_ms },
        clipboard: match p.clipboard { Some(v) => v, None => d.clipboard },
        tls: match p.tls { Some(v) => v, None => d.tls },
        layout: p.layout,
        clients: match p.clients { Some(v) => v, None => d.clients },
    }
}

/// Client settings from a partial file, missing settings taking their defaults.
pub fn client_config_from(p: ClientConfigPartial) -> (r: ClientConfig)
    ensures
        r.port == (match p.port { Some(v) => v, None => DEFAULT_PORT }),
        r.bind_addr@ == (match p.bind_addr { Some(s) => s@, None => "0.0.0.0"@ }),
        r.kb_layout@ == (match p.kb_layout { Some(s) => s@, None => Seq::<char>::empty() }),
        r.heartbeat_timeout_ms == (match p.heartbeat_timeout_ms { Some(v) => v, None => DEFAULT_HEARTBEAT_TIMEOUT_MS }),
        r.clipboard == (match p.clipboard { Some(v) => v, None => true }),
        r.tls == (match p.tls { Some(v) => v, None => true }),
{
    let d = ClientConfig::default();
    ClientConfig {
        port: match p.port { Some(v) => v, None => d.port },
        bind_addr: match p.bind_addr { Some(s) => s, None => d.bind_addr },
        kb_layout: match p.kb_layout { Some(s) => s, None => d.kb_layout },
        heartbeat_timeout_ms: match p.heartbeat_timeout_ms { Some(v) => v, None => d.heartbeat_timeout_ms },
        clipboard: match p.clipboard { Some(v) => v, None => d.clipboard },
        tls: match p.tls { Some(v) => v, None => d.tls },
    }
}

// ─── Role ────────────────────────────────────────────────────────────────────

/// The role a machine plays.
#[derive(Debug, Clone, Copy, PartialEq, Eq, Structural)]
pub enum Role {
    /// Shares its keyboard and mouse.
    Host,
    /// Receives them.
    Client,
}

/// The stored name of a role.
pub open spec fn role_name_of(r: Role) -> Seq<char> {
    match r {
        Role::Host => seq!['h', 'o', 's', 't'],
        Role::Client => seq!['c', 'l', 'i', 'e', 'n', 't'],
    }
}

/// The stored name of a role: "host" or "client".
pub fn role_name(r: Role) -> (s: &'static str)
    ensures
        s@ == role_name_of(r),
{
    proof {
        reveal_strlit("host");
        reveal_strlit("client");
        assert("host"@ =~= seq!['h', 'o', 's', 't']);
        assert("client"@ =~= seq!['c', 'l', 'i', 'e', 'n', 't']);
    }
    match r {
        Role::Host => "host",
        Role::Client => "client",
    }
}

/// The role a stored name denotes; any other name means no role chosen yet.
pub fn role_from_name(s: &str) -> (r: Option<Role>)
    ensures
        r == (if s@ == role_name_of(Role::Host) {
            Some(Role::Host)
        } else if s@ == role_name_of(Role::Client) {
            Some(Role::Client)
        } else {
            None
        }),
{
    if str_eq(s, role_name(Role::Host)) {
        Some(Role::Host)
    } else if str_eq(s, role_name(Role::Client)) {
        Some(Role::Client)
    } else {
        None
    }
}

/// A saved role is read back as the same role.
pub proof fn lemma_role_roundtrip(r: Role)
    ensures
        (if role_name_of(r) == role_name_of(Role::Host) {
            Some(Role::Host)
        } else if role_name_of(r) == role_name_of(Role::Client) {
            Some(Role::Client)
        } else {
            None
        }) == Some(r),
{
    assert(role_name_of(Role::Host) != role_name_of(Role::Client)) by {
        assert(role_name_of(Role::Host).len() != role_name_of(Role::Client).len());
    }
}

} // verus!

verus! {

// ─── Trusted fingerprints ───────────────────────────────────────────────────

/// Whether a trimmed line names a fingerprint (not blank, not a `#` comment).
pub open spec fn kept_peer(l: Seq<char>) -> bool {
    l.len() > 0 && l[0] != '#'
}

/// The fingerprints named by lines `ls`, each trimmed, in order.
pub open spec fn peers_in(ls: Seq<Seq<char>>) -> Seq<Seq<char>>
    decreases ls.len(),
{
    if ls.len() == 0 {
        Seq::empty()
    } else {
        let rest = peers_in(ls.drop_last());
        let t = trim(ls.last());
        if kept_peer(t) { rest.push(t) } else { rest }
    }
}

/// The fingerprints a trusted-peers text names: one per line, trimmed,
/// skipping blank lines and `#` comments.
pub open spec fn trusted_peers(text: Seq<char>) -> Seq<Seq<char>> {
    peers_in(lines(text))
}

/// The text a fingerprint list is saved as: each fingerprint followed by a
/// line feed.
pub open spec fn peers_text(ps: Seq<Seq<char>>) -> Seq<char>
    decreases ps.len(),
{
    if ps.len() == 0 {
        Seq::empty()
    } else {
        peers_text(ps.drop_last()) + ps.last() + seq!['\n']
    }
}

/// Read the fingerprints from a trusted-peers text.
pub fn parse_trusted_peers(text: &str) -> (r: Vec<String>)
    ensures
        r@.map_values(|s: String| s@) == trusted_peers(text@),
{
    let ls = split_lines(text);
    let ghost lv = lines(text@);
    let mut out: Vec<String> = Vec::new();
    let n = ls.len();
    let mut i: usize = 0;
    assert(lv.take(0) =~= Seq::<Seq<char>>::empty());
    while i < n
        invariant
            n == ls@.len(),
            n == lv.len(),
            lv == lines(text@),
            forall|k: int| 0 <= k < n ==> #[trigger] ls@[k]@ == lv[k],
            i <= n,
            out@.map_values(|s: String| s@) == peers_in(lv.take(i as int)),
        decreases n - i,
    {
        let t = trim_str(ls[i].as_str());
        assert(lv.take(i + 1).drop_last() =~= lv.take(i as int));
        assert(lv.take(i + 1).last() == ls@[i as int]@);
        if t.unicode_len() > 0 && !starts_with_char(t, '#') {
            let ghost before = out@;
            out.push(t.to_owned());
            assert(out@.map_values(|s: String| s@) =~= before.map_values(|s: String| s@).push(t@));
        }
        i = i + 1;
    }
    assert(lv.take(n as int) =~= lv);
    out
}

/// The text to save a fingerprint list as: the fingerprints joined by line
/// feeds, with a final line feed when the list is not empty.
pub fn format_trusted_peers(peers: &[String]) -> (r: String)
    ensures
        r@ == peers_text(peers@.map_values(|s: String| s@)),
{
    let mut out = String::new();
    let n = peers.len();
    let mut i: usize = 0;
    assert(peers@.map_values(|s: String| s@).take(0) =~= Seq::<Seq<char>>::empty());
    while i < n
        invariant
            n == peers@.len(),
            i <= n,
            out@ == peers_text(peers@.map_values(|s: String| s@).take(i as int)),
        decreases n - i,
    {
        let ghost ps = peers@.map_values(|s: String| s@);
        assert(ps.take(i + 1).drop_last() =~= ps.take(i as int));
        out.append(peers[i].as_str());
        push_char(&mut out, '\n');
        i = i + 1;
        assert(out@ =~= peers_text(ps.take(i as int)));
    }
    assert(peers@.map_values(|s: String| s@).take(n as int) =~= peers@.map_values(|s: String| s@));
    out
}

proof fn lemma_next_newline_shift(a: Seq<char>, b: Seq<char>, k: int)
    requires
        0 <= k <= b.len(),
    ensures
        next_newline(a + b, a.len() + k) == a.len() + next_newline(b, k),
    decreases b.len() - k,
{
    if k < b.len() {
        assert((a + b)[a.len() + k] == b[k]);
        if b[k] != '\n' {
            lemma_next_newline_shift(a, b, k + 1);
        }
    }
}

proof fn lemma_lines_shift(a: Seq<char>, b: Seq<char>, k: int)
    requires
        0 <= k <= b.len(),
    ensures
        lines_from(a + b, a.len() + k) == lines_from(b, k),
    decreases b.len() - k,
{
    if k < b.len() {
        lemma_next_newline_shift(a, b, k);
        lemma_next_newline_bounds(b, k);
        let j = next_newline(b, k);
        assert((a + b).subrange(a.len() + k, a.len() + j) =~= b.subrange(k, j));
        if j < b.len() {
            lemma_lines_shift(a, b, j + 1);
        } else {
            assert((a + b).subrange(a.len() + k, (a + b).len() as int) =~= b.subrange(k, b.len() as int));
        }
    }
}

proof fn lemma_next_newline_prefix(a: Seq<char>, b: Seq<char>, i: int)
    requires
        0 <= i < a.len(),
        a.last() == '\n',
    ensures
        next_newline(a + b, i) == next_newline(a, i),
        next_newline(a, i) < a.len(),
    decreases a.len() - i,
{
    assert((a + b)[i] == a[i]);
    if a[i] != '\n' {
        lemma_next_newline_prefix(a, b, i + 1);
    }
}

proof fn lemma_lines_concat(a: Seq<char>, b: Seq<char>, i: int)
    requires
        0 <= i <= a.len(),
        a.len() == 0 || a.last() == '\n',
    ensures
        lines_from(a + b, i) == lines_from(a, i) + lines_from(b, 0),
    decreases a.len() - i,
{
    if i == a.len() {
        lemma_lines_shift(a, b, 0);
        assert(lines_from(a, i) =~= Seq::<Seq<char>>::empty());
        assert(lines_from(a + b, i) =~= lines_from(a, i) + lines_from(b, 0));
    } else {
        lemma_next_newline_prefix(a, b, i);
        lemma_next_newline_bounds(a, i);
        let j = next_newline(a, i);
        assert((a + b).subrange(i, j) =~= a.subrange(i, j));
        lemma_lines_concat(a, b, j + 1);
        assert(lines_from(a + b, i) =~= lines_from(a, i) + lines_from(b, 0));
    }
}

proof fn lemma_single_line(p: Seq<char>)
    requires
        !p.contains('\n'),
        p.len() == 0 || p.last() != '\r',
    ensures
        lines(p + seq!['\n']) == seq![p],
{
    let s = p + seq!['\n'];
    lemma_next_newline_bounds(s, 0);
    let j = next_newline(s, 0);
    assert(j == p.len()) by {
        if j < p.len() {
            assert(s[j] == p[j]);
            assert(p.contains('\n'));
        }
        assert(s[p.len() as int] == '\n');
    }
    assert(s.subrange(0, j) =~= p);
    assert(lines_from(s, j + 1) =~= Seq::<Seq<char>>::empty());
    assert(lines(s) =~= seq![p]);
}

proof fn lemma_lines_of_peers_text(ps: Seq<Seq<char>>)
    requires
        forall|k: int| 0 <= k < ps.len() ==> !(#[trigger] ps[k]).contains('\n') && (ps[k].len() == 0 || ps[k].last() != '\r'),
    ensures
        lines(peers_text(ps)) == ps,
        peers_text(ps).len() == 0 || peers_text(ps).last() == '\n',
    decreases ps.len(),
{
    if ps.len() > 0 {
        let init = ps.drop_last();
        assert forall|k: int| 0 <= k < init.len() implies !(#[trigger] init[k]).contains('\n') && (init[k].len() == 0 || init[k].last() != '\r') by {
            assert(init[k] == ps[k]);
        }
        lemma_lines_of_peers_text(init);
        let a = peers_text(init);
        let p = ps.last();
        assert(p == ps[ps.len() - 1]);
        lemma_single_line(p);
        lemma_lines_concat(a, p + seq!['\n'], 0);
        assert(peers_text(ps) =~= a + (p + seq!['\n']));
        assert(lines(peers_text(ps)) =~= ps);
    }
}

proof fn lemma_peers_in_kept(ps: Seq<Seq<char>>)
    requires
        forall|k: int| 0 <= k < ps.len() ==> kept_peer(#[trigger] ps[k]) && trim(ps[k]) == ps[k],
    ensures
        peers_in(ps) == ps,
    decreases ps.len(),
{
    if ps.len() > 0 {
        let init = ps.drop_last();
        assert forall|k: int| 0 <= k < init.len() implies kept_peer(#[trigger] init[k]) && trim(init[k]) == init[k] by {
            assert(init[k] == ps[k]);
        }
        lemma_peers_in_kept(init);
        assert(ps.last() == ps[ps.len() - 1]);
        assert(peers_in(ps) =~= ps);
    }
}

/// Saving a list of fingerprints and reading the file back gives the same
/// list in the same order: what [`format_trusted_peers`] writes,
/// [`parse_trusted_peers`] (and so `fingerprint::load_trusted`) reads back,
/// for fingerprints that are single trimmed lines, not comments, not empty,
/// and do not end in a carriage return.
pub proof fn lemma_trusted_peers_roundtrip(ps: Seq<Seq<char>>)
    requires
        forall|k: int| 0 <= k < ps.len() ==> {
            &&& kept_peer(#[trigger] ps[k])
            &&& trim(ps[k]) == ps[k]
            &&& !ps[k].contains('\n')
            &&& ps[k].last() != '\r'
        },
    ensures
        trusted_peers(peers_text(ps)) == ps,
{
    lemma_lines_of_peers_text(ps);
    lemma_peers_in_kept(ps);
}

} // verus!
