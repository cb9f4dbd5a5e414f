//! Talking to the Hyprland compositor on the client: what to ask `hyprctl`,
//! and what its replies mean.
//!
//! Running `hyprctl` is left to the caller; these functions build the
//! argument lists and read the replies. The compositor may speak the classic
//! command syntax or the Lua (v2) one: which one works is learned from the
//! first reply that succeeds, and kept.
use vstd::prelude::*;
use crate::text::{
    contains_seq, find_char, lemma_next_char_bounds, next_char, parse_i32, parse_i32_str, push_i32,
    signed_decimal, str_contains, str_eq, trim, trim_str, views,
};

verus! {

/// The characters of an optional string.
pub open spec fn opt_view(o: Option<String>) -> Option<Seq<char>> {
    match o {
        Some(s) => Some(s@),
        None => None,
    }
}

/// The fallback keyboard layout.
pub open spec fn us() -> Seq<char> {
    seq!['u', 's']
}

// ─── Replies ─────────────────────────────────────────────────────────────────

/// `hyprctl` exits with success even when a command fails, so the only
/// reliable success signal is the reply "ok" (surrounding white space aside).
pub fn hyprctl_ok(reply: Option<&str>) -> (r: bool)
    ensures
        r == (reply is Some && trim((reply->0)@) == "ok"@),
{
    match reply {
        Some(out) => str_eq(trim_str(out), "ok"),
        None => false,
    }
}

/// The cursor position in a `hyprctl cursorpos` reply, which reads "x, y":
/// the trimmed reply split at commas, the first two pieces parsed (after
/// trimming) as `i32`.
pub open spec fn cursor_pos_of(reply: Seq<char>) -> Option<(i32, i32)> {
    let t = trim(reply);
    let i = next_char(t, ',', 0);
    if i >= t.len() {
        None
    } else {
        let rest = t.subrange(i + 1, t.len() as int);
        let j = next_char(rest, ',', 0);
        match (parse_i32(trim(t.subrange(0, i))), parse_i32(trim(rest.subrange(0, j)))) {
            (Some(x), Some(y)) => Some((x, y)),
            _ => None,
        }
    }
}

/// Read the cursor position out of a `hyprctl cursorpos` reply.
pub fn cursor_pos(reply: &str) -> (r: Option<(i32, i32)>)
    ensures
        r == cursor_pos_of(reply@),
{
    let t = trim_str(reply);
    let n = t.unicode_len();
    let i = find_char(t, ',', 0);
    proof {
        lemma_next_char_bounds(t@, ',', 0);
    }
    if i >= n {
        return None;
    }
    let rest = t.substring_char(i + 1, n);
    let m = rest.unicode_len();
    let j = find_char(rest, ',', 0);
    proof {
        lemma_next_char_bounds(rest@, ',', 0);
    }
    let first = t.substring_char(0, i);
    let second = rest.substring_char(0, j);
    let x = parse_i32_str(trim_str(first));
    let y = parse_i32_str(trim_str(second));
    match (x, y) {
        (Some(x), Some(y)) => Some((x, y)),
        _ => None,
    }
}

/// Linux gives no way to see from outside the compositor whether a game holds
/// the pointer, so the client never reports it locked.
pub fn pointer_locked() -> (r: bool)
    ensures
        !r,
{
    false
}

/// The screen size reported to the host: width and height of the focused
/// monitor's rectangle (x, y, width, height).
pub fn screen_size(rect: Option<(i32, i32, i32, i32)>) -> (r: Option<(i32, i32)>)
    ensures
        r == (match rect {
            Some((_, _, w, h)) => Some((w, h)),
            None => None,
        }),
{
    match rect {
        Some((_, _, w, h)) => Some((w, h)),
        None => None,
    }
}

// ─── Command syntax ──────────────────────────────────────────────────────────

/// What is known of the compositor's command syntax.
pub struct HyprSession {
    /// `None` until a command succeeds; then whether that was the Lua form.
    pub lua_mode: Option<bool>,
}

/// `hyprctl dispatch movecursor X Y`.
pub open spec fn classic_move_args(x: i32, y: i32) -> Seq<Seq<char>> {
    seq!["dispatch"@, "movecursor"@, signed_decimal(x as int), signed_decimal(y as int)]
}

/// `hyprctl eval "hl.dispatch(hl.dsp.cursor.move({ x = X, y = Y }))"`.
pub open spec fn lua_move_args(x: i32, y: i32) -> Seq<Seq<char>> {
    seq![
        "eval"@,
        "hl.dispatch(hl.dsp.cursor.move({ x = "@ + signed_decimal(x as int) + ", y = "@ + signed_decimal(
            y as int,
        ) + " }))"@,
    ]
}

/// The commands to try, in order, to warp the cursor: the learned syntax
/// alone, or classic then Lua while nothing is known. Each is paired with
/// whether it is the Lua form.
pub open spec fn move_attempts(mode: Option<bool>, x: i32, y: i32) -> Seq<(bool, Seq<Seq<char>>)> {
    match mode {
        Some(false) => seq![(false, classic_move_args(x, y))],
        Some(true) => seq![(true, lua_move_args(x, y))],
        None => seq![(false, classic_move_args(x, y)), (true, lua_move_args(x, y))],
    }
}

/// The attempts, by their characters.
pub open spec fn attempts_view(v: Seq<(bool, Vec<String>)>) -> Seq<(bool, Seq<Seq<char>>)> {
    v.map_values(|a: (bool, Vec<String>)| (a.0, views(a.1@)))
}

fn classic_move(x: i32, y: i32) -> (r: Vec<String>)
    ensures
        views(r@) == classic_move_args(x, y),
{
    let mut xs = String::new();
    push_i32(&mut xs, x);
    let mut ys = String::new();
    push_i32(&mut ys, y);
    let mut out: Vec<String> = Vec::new();
    out.push(String::from_str("dispatch"));
    out.push(String::from_str("movecursor"));
    out.push(xs);
    out.push(ys);
    assert(views(out@) =~= classic_move_args(x, y));
    out
}

fn lua_move(x: i32, y: i32) -> (r: Vec<String>)
    ensures
        views(r@) == lua_move_args(x, y),
{
    let mut e = String::from_str("hl.dispatch(hl.dsp.cursor.move({ x = ");
    push_i32(&mut e, x);
    e.append(", y = ");
    push_i32(&mut e, y);
    e.append(" }))");
    let mut out: Vec<String> = Vec::new();
    out.push(String::from_str("eval"));
    out.push(e);
    assert(views(out@) =~= lua_move_args(x, y));
    out
}

/// `hyprctl -r keyword device:NAME:kb_layout LAYOUT`.
pub open spec fn keyword_args(device: Seq<char>, layout: Seq<char>) -> Seq<Seq<char>> {
    seq!["-r"@, "keyword"@, "device:"@ + device + ":kb_layout"@, layout]
}

/// `hyprctl eval "hl.device({ name = 'NAME', kb_layout = 'LAYOUT' })"`.
pub open spec fn lua_device_args(device: Seq<char>, layout: Seq<char>) -> Seq<Seq<char>> {
    seq!["eval"@, "hl.device({ name = '"@ + device + "', kb_layout = '"@ + layout + "' })"@]
}

fn keyword_layout(device: &str, layout: &str) -> (r: Vec<String>)
    ensures
        views(r@) == keyword_args(device@, layout@),
{
    let mut k = String::from_str("device:");
    k.append(device);
    k.append(":kb_layout");
    let mut out: Vec<String> = Vec::new();
    out.push(String::from_str("-r"));
    out.push(String::from_str("keyword"));
    out.push(k);
    out.push(layout.to_owned());
    assert(views(out@) =~= keyword_args(device@, layout@));
    out
}

fn lua_layout(device: &str, layout: &str) -> (r: Vec<String>)
    ensures
        views(r@) == lua_device_args(device@, layout@),
{
    let mut e = String::from_str("hl.device({ name = '");
    e.append(device);
    e.append("', kb_layout = '");
    e.append(layout);
    e.append("' })");
    let mut out: Vec<String> = Vec::new();
    out.push(String::from_str("eval"));
    out.push(e);
    assert(views(out@) =~= lua_device_args(device@, layout@));
    out
}

/// A layout that may be handed to the compositor: not empty, and only
/// lowercase ASCII letters and commas (so it cannot escape the quoted Lua
/// string it is placed in).
pub open spec fn plain_layout(layout: Seq<char>) -> bool {
    layout.len() > 0 && forall|k: int| 0 <= k < layout.len() ==> ('a' <= #[trigger] layout[k] <= 'z' || layout[k] == ',')
}

/// See [`plain_layout`].
pub fn is_plain_layout(layout: &str) -> (r: bool)
    ensures
        r == plain_layout(layout@),
{
    let n = layout.unicode_len();
    if n == 0 {
        return false;
    }
    let mut i: usize = 0;
    while i < n
        invariant
            n == layout@.len(),
            i <= n,
            forall|k: int| 0 <= k < i ==> ('a' <= #[trigger] layout@[k] <= 'z' || layout@[k] == ','),
        decreases n - i,
    {
        let c = layout.get_char(i);
        if !(('a' <= c && c <= 'z') || c == ',') {
            return false;
        }
        i = i + 1;
    }
    true
}

/// The error when no compositor instance can be found.
pub open spec fn no_instance_message() -> Seq<char> {
    seq!['c', 'o', 'u', 'l', 'd', ' ', 'n', 'o', 't', ' ', 'd', 'e', 't', 'e', 'r', 'm', 'i', 'n', 'e', ' ']
        + seq!['H', 'Y', 'P', 'R', 'L', 'A', 'N', 'D', '_', 'I', 'N', 'S', 'T', 'A', 'N', 'C', 'E', '_']
        + seq!['S', 'I', 'G', 'N', 'A', 'T', 'U', 'R', 'E']
}

/// The layout actually applied: the requested one when plain, else "us".
pub open spec fn effective_layout(layout: Seq<char>) -> Seq<char> {
    if plain_layout(layout) { layout } else { us() }
}

/// The commands to try, in order, to give the virtual keyboard `device` the
/// layout `layout` when the compositor reports `current` for it: none when
/// the (effective) layout is already active, else the classic keyword then
/// the Lua form.
pub open spec fn layout_attempts(device: Seq<char>, layout: Seq<char>, current: Option<Seq<char>>) -> Seq<(bool, Seq<Seq<char>>)> {
    let l = effective_layout(layout);
    if current == Some(l) {
        Seq::empty()
    } else {
        seq![(false, keyword_args(device, l)), (true, lua_device_args(device, l))]
    }
}

impl HyprSession {
    /// Nothing known yet.
    pub fn new() -> (r: Self)
        ensures
            r.lua_mode is None,
    {
        HyprSession { lua_mode: None }
    }

    /// The `hyprctl` commands to try, in order, to warp the cursor to (x, y),
    /// each paired with whether it is the Lua form.
    pub fn move_cursor(&self, x: i32, y: i32) -> (r: Vec<(bool, Vec<String>)>)
        ensures
            attempts_view(r@) == move_attempts(self.lua_mode, x, y),
    {
        let mut out: Vec<(bool, Vec<String>)> = Vec::new();
        match self.lua_mode {
            Some(false) => {
                out.push((false, classic_move(x, y)));
            },
            Some(true) => {
                out.push((true, lua_move(x, y)));
            },
            None => {
                out.push((false, classic_move(x, y)));
                out.push((true, lua_move(x, y)));
            },
        }
        assert(attempts_view(out@) =~= move_attempts(self.lua_mode, x, y));
        out
    }

    /// The `hyprctl` commands to try, in order, to give `device_name` the
    /// keyboard layout `layout`, given the layout the compositor reports for
    /// it now (`current`).
    pub fn apply_layout(&self, device_name: &str, layout: &str, current: Option<String>) -> (r: Vec<(bool, Vec<String>)>)
        ensures
            attempts_view(r@) == layout_attempts(device_name@, layout@, opt_view(current)),
    {
        let plain = is_plain_layout(layout);
        let l: String = if plain { layout.to_owned() } else { String::from_str("us") };
        proof {
            reveal_strlit("us");
            assert("us"@ =~= us());
        }
        let mut out: Vec<(bool, Vec<String>)> = Vec::new();
        let same = match &current {
            Some(c) => str_eq(c.as_str(), l.as_str()),
            None => false,
        };
        if same {
            assert(attempts_view(out@) =~= layout_attempts(device_name@, layout@, opt_view(current)));
            return out;
        }
        out.push((false, keyword_layout(device_name, l.as_str())));
        out.push((true, lua_layout(device_name, l.as_str())));
        assert(attempts_view(out@) =~= layout_attempts(device_name@, layout@, opt_view(current)));
        out
    }

    /// Applying a layout to the virtual keyboard. With no running compositor
    /// instance (`instance_found` false) it fails with
    /// "could not determine HYPRLAND_INSTANCE_SIGNATURE" and nothing is to be
    /// run. Otherwise it succeeds with the commands of [`Self::apply_layout`]:
    /// the caller tries them in order until one is accepted, and the layout
    /// step counts as done whatever the compositor answers (a mismatch is
    /// only reported).
    pub fn layout_plan(&self, instance_found: bool, device_name: &str, layout: &str, current: Option<String>) -> (r: Result<Vec<(bool, Vec<String>)>, String>)
        ensures
            r is Ok <==> instance_found,
            r matches Ok(a) ==> attempts_view(a@) == layout_attempts(device_name@, layout@, opt_view(current)),
            r matches Err(e) ==> e@ == no_instance_message(),
    {
        if !instance_found {
            let e = String::from_str("could not determine HYPRLAND_INSTANCE_SIGNATURE");
            proof {
                reveal_strlit("could not determine HYPRLAND_INSTANCE_SIGNATURE");
            }
            return Err(e);
        }
        Ok(self.apply_layout(device_name, layout, current))
    }

    /// Record the reply to a command: the first success fixes the syntax.
    pub fn note_reply(&mut self, sent_lua: bool, ok: bool)
        ensures
            final(self).lua_mode == (if ok && old(self).lua_mode is None {
                Some(sent_lua)
            } else {
                old(self).lua_mode
            }),
    {
        if ok && self.lua_mode.is_none() {
            self.lua_mode = Some(sent_lua);
        }
    }
}

/// Once the syntax is learned it never changes, and the cursor is then
/// warped with that syntax alone.
pub proof fn lemma_syntax_sticks(mode: Option<bool>, sent_lua: bool, ok: bool, x: i32, y: i32)
    requires
        mode is Some,
    ensures
        (if ok && mode is None { Some(sent_lua) } else { mode }) == mode,
        move_attempts(mode, x, y).len() == 1,
        move_attempts(mode, x, y)[0].0 == mode->0,
{
}

/// Whatever the requested layout, the commands only ever carry a plain one.
pub proof fn lemma_applied_layout_is_plain(device: Seq<char>, layout: Seq<char>, current: Option<Seq<char>>)
    ensures
        plain_layout(effective_layout(layout)),
        forall|k: int| 0 <= k < layout_attempts(device, layout, current).len() ==> {
            let a = #[trigger] layout_attempts(device, layout, current)[k];
            a.1 == (if a.0 { lua_device_args(device, effective_layout(layout)) } else { keyword_args(device, effective_layout(layout)) })
        },
{
    assert(plain_layout(us()));
}

// ─── Keyboards ───────────────────────────────────────────────────────────────

/// The keyboards that a `hyprctl devices -j` reply lists, each as its "name"
/// and "layout" fields when they are strings; `None` when the reply is not
/// JSON or has no "keyboards" array.
pub uninterp spec fn keyboards_listed(json: Seq<char>) -> Option<Seq<(Option<Seq<char>>, Option<Seq<char>>)>>;

/// The keyboards of a reply, by their characters.
pub open spec fn keyboards_view(v: Seq<(Option<String>, Option<String>)>) -> Seq<(Option<Seq<char>>, Option<Seq<char>>)> {
    v.map_values(|k: (Option<String>, Option<String>)| (opt_view(k.0), opt_view(k.1)))
}

/// `serde_json::from_str` of a `hyprctl devices -j` reply, then the
/// "keyboards" array with each entry's "name" and "layout" string fields
/// (`None` for a field that is missing or not a string). The result is
/// named: it depends on the text alone.
#[verifier::external_body]
fn keyboards_in(json: &str) -> (r: Option<Vec<(Option<String>, Option<String>)>>)
    ensures
        match keyboards_listed(json@) {
            None => r is None,
            Some(ks) => r is Some && keyboards_view((r->0)@) == ks,
        },
{
    let v: serde_json::Value = serde_json::from_str(json).ok()?;
    let arr = v["keyboards"].as_array()?;
    Some(arr.iter().map(|kb| (kb["name"].as_str().map(str::to_owned), kb["layout"].as_str().map(str::to_owned))).collect())
}

/// A layout name without any variant in parentheses: "es(nodeadkeys)" is "es".
pub open spec fn layout_token(s: Seq<char>) -> Seq<char> {
    trim(s.subrange(0, next_char(s, '(', 0)))
}

fn layout_token_of(s: &str) -> (r: String)
    ensures
        r@ == layout_token(s@),
{
    let i = find_char(s, '(', 0);
    proof {
        lemma_next_char_bounds(s@, '(', 0);
    }
    trim_str(s.substring_char(0, i)).to_owned()
}

/// Whether a keyboard is a physical one: its name (when it has one) mentions
/// neither this program's virtual device nor "virtual".
pub open spec fn is_physical(name: Option<Seq<char>>) -> bool {
    match name {
        None => true,
        Some(n) => !contains_seq(n, "yzendris"@) && !contains_seq(n, "virtual"@),
    }
}

/// Index of the first physical keyboard at or after `i` (the length if none).
pub open spec fn first_physical(ks: Seq<(Option<Seq<char>>, Option<Seq<char>>)>, i: int) -> int
    decreases ks.len() - i,
{
    if i < 0 || i >= ks.len() {
        ks.len() as int
    } else if is_physical(ks[i].0) {
        i
    } else {
        first_physical(ks, i + 1)
    }
}

/// The layout of the first physical keyboard, without its variant; "us"
/// when there is none, it has no layout, or the layout is blank.
pub open spec fn detected_layout(kbs: Option<Seq<(Option<Seq<char>>, Option<Seq<char>>)>>) -> Seq<char> {
    match kbs {
        None => us(),
        Some(ks) => {
            let i = first_physical(ks, 0);
            if i >= ks.len() {
                us()
            } else {
                match ks[i].1 {
                    None => us(),
                    Some(l) => if layout_token(l).len() > 0 { layout_token(l) } else { us() },
                }
            }
        },
    }
}

fn physical(name: &Option<String>) -> (r: bool)
    ensures
        r == is_physical(opt_view(*name)),
{
    match name {
        None => true,
        Some(n) => !str_contains(n.as_str(), "yzendris") && !str_contains(n.as_str(), "virtual"),
    }
}

/// The keyboard layout to give the virtual device when none is configured,
/// from the keyboards the compositor lists (`None`: they could not be read).
pub fn layout_of_keyboards(kbs: Option<Vec<(Option<String>, Option<String>)>>) -> (r: String)
    ensures
        r@ == detected_layout(match kbs {
            Some(v) => Some(keyboards_view(v@)),
            None => None,
        }),
{
    proof {
        reveal_strlit("us");
        assert("us"@ =~= us());
    }
    let ks = match kbs {
        Some(v) => v,
        None => return String::from_str("us"),
    };
    let ghost kv = keyboards_view(ks@);
    let n = ks.len();
    let mut i: usize = 0;
    while i < n && !physical(&ks[i].0)
        invariant
            n == ks@.len(),
            kv == keyboards_view(ks@),
            i <= n,
            first_physical(kv, 0) == first_physical(kv, i as int),
        decreases n - i,
    {
        i = i + 1;
    }
    if i >= n {
        return String::from_str("us");
    }
    match &ks[i].1 {
        None => String::from_str("us"),
        Some(l) => {
            let t = layout_token_of(l.as_str());
            if t.unicode_len() > 0 {
                t
            } else {
                String::from_str("us")
            }
        },
    }
}

/// The layout the compositor reports for the keyboard named `device_name`
/// (the first one of that name), without its variant.
pub open spec fn device_layout_of(kbs: Option<Seq<(Option<Seq<char>>, Option<Seq<char>>)>>, device_name: Seq<char>) -> Option<Seq<char>> {
    match kbs {
        None => None,
        Some(ks) => if exists|k: int| 0 <= k < ks.len() && ks[k].0 == Some(device_name) {
            let k = choose|k: int|
                0 <= k < ks.len() && ks[k].0 == Some(device_name) && forall|t: int| 0 <= t < k ==> ks[t].0 != Some(device_name);
            match ks[k].1 {
                Some(l) => Some(layout_token(l)),
                None => None,
            }
        } else {
            None
        },
    }
}

/// See [`device_layout_of`]; `kbs` are the keyboards the compositor lists.
pub fn keyboard_layout(kbs: Option<Vec<(Option<String>, Option<String>)>>, device_name: &str) -> (r: Option<String>)
    ensures
        opt_view(r) == device_layout_of(
            match kbs {
                Some(v) => Some(keyboards_view(v@)),
                None => None,
            },
            device_name@,
        ),
{
    let ghost orig = kbs;
    let ks = match kbs {
        Some(v) => v,
        None => return None,
    };
    assert(orig == Some(ks));
    let ghost kv = keyboards_view(ks@);
    let n = ks.len();
    let mut i: usize = 0;
    while i < n
        invariant
            n == ks@.len(),
            kv == keyboards_view(ks@),
            orig == Some(ks),
            orig == kbs,
            i <= n,
            forall|t: int| 0 <= t < i ==> kv[t].0 != Some(device_name@),
        decreases n - i,
    {
        let hit = match &ks[i].0 {
            Some(name) => str_eq(name.as_str(), device_name),
            None => false,
        };
        assert(hit == (kv[i as int].0 == Some(device_name@)));
        if hit {
            proof {
                let k = choose|k: int|
                    0 <= k < kv.len() && kv[k].0 == Some(device_name@) && forall|t: int| 0 <= t < k ==> kv[t].0 != Some(device_name@);
                assert(0 <= i < kv.len() && kv[i as int].0 == Some(device_name@) && forall|t: int| 0 <= t < i ==> kv[t].0 != Some(device_name@));
                assert(exists|k: int| 0 <= k < kv.len() && kv[k].0 == Some(device_name@));
                assert(kv[i as int].1 == opt_view(ks@[i as int].1));
                if k != i {
                    if k < i {
                        assert(kv[k].0 != Some(device_name@));
                    } else {
                        assert(kv[i as int].0 != Some(device_name@));
                    }
                }
            }
            let r = match &ks[i].1 {
                Some(l) => Some(layout_token_of(l.as_str())),
                None => None,
            };
            assert(opt_view(r) == device_layout_of(Some(kv), device_name@));
            return r;
        }
        i = i + 1;
    }
    None
}

// ─── Finding the compositor ──────────────────────────────────────────────────

/// Index of the newest instance directory among the first `n`: the one with
/// the latest modification time, the earliest listed on ties.
pub open spec fn newest_upto(ds: Seq<(u128, Seq<char>)>, n: int) -> Option<int>
    decreases n,
{
    if n <= 0 {
        None
    } else {
        match newest_upto(ds, n - 1) {
            None => Some(n - 1),
            Some(j) => if ds[n - 1].0 > ds[j].0 { Some(n - 1) } else { Some(j) },
        }
    }
}

proof fn lemma_newest_in_range(ds: Seq<(u128, Seq<char>)>, n: int)
    requires
        n <= ds.len(),
    ensures
        newest_upto(ds, n) matches Some(j) ==> 0 <= j < n,
    decreases n,
{
    if n > 0 {
        lemma_newest_in_range(ds, n - 1);
    }
}

/// The running compositor instance: the signature inherited from the
/// environment when it is not empty and its socket exists; otherwise the
/// newest instance directory that holds a socket (each given as its
/// modification time and name).
pub open spec fn instance_of(env: Option<(Seq<char>, bool)>, ds: Seq<(u128, Seq<char>)>) -> Option<Seq<char>> {
    let newest = match newest_upto(ds, ds.len() as int) {
        Some(j) => Some(ds[j].1),
        None => None,
    };
    match env {
        Some((sig, live)) => if sig.len() > 0 && live { Some(sig) } else { newest },
        None => newest,
    }
}

/// See [`instance_of`]; `env` is the inherited signature with whether its
/// socket exists, `dirs` the instance directories that hold a socket.
pub fn instance_signature(env: Option<(String, bool)>, dirs: &[(u128, String)]) -> (r: Option<String>)
    ensures
        opt_view(r) == instance_of(
            match env {
                Some((s, b)) => Some((s@, b)),
                None => None,
            },
            dirs@.map_values(|d: (u128, String)| (d.0, d.1@)),
        ),
{
    if let Some((sig, live)) = env {
        if sig.unicode_len() > 0 && live {
            return Some(sig);
        }
    }
    let ghost ds = dirs@.map_values(|d: (u128, String)| (d.0, d.1@));
    let n = dirs.len();
    let mut best: Option<usize> = None;
    let mut i: usize = 0;
    while i < n
        invariant
            n == dirs@.len(),
            ds == dirs@.map_values(|d: (u128, String)| (d.0, d.1@)),
            i <= n,
            match newest_upto(ds, i as int) {
                Some(j) => best == Some(j as usize) && j < i,
                None => best is None,
            },
        decreases n - i,
    {
        proof {
            lemma_newest_in_range(ds, i as int);
        }
        let take = match best {
            None => true,
            Some(j) => dirs[i].0 > dirs[j].0,
        };
        if take {
            best = Some(i);
        }
        i = i + 1;
    }
    proof {
        lemma_newest_in_range(ds, n as int);
    }
    match best {
        Some(j) => {
            let name = dirs[j].1.clone();
            assert(name@ == ds[j as int].1);
            Some(name)
        },
        None => None,
    }
}

/// The keyboards a `hyprctl devices -j` reply lists (`None` without a reply).
pub open spec fn reply_keyboards(reply: Option<&str>) -> Option<Seq<(Option<Seq<char>>, Option<Seq<char>>)>> {
    match reply {
        Some(j) => keyboards_listed(j@),
        None => None,
    }
}

fn keyboards_of(reply: Option<&str>) -> (r: Option<Vec<(Option<String>, Option<String>)>>)
    ensures
        match reply_keyboards(reply) {
            None => r is None,
            Some(ks) => r is Some && keyboards_view((r->0)@) == ks,
        },
{
    match reply {
        Some(j) => keyboards_in(j),
        None => None,
    }
}

/// The keyboard layout to give the virtual device when none is configured,
/// from the `hyprctl devices -j` reply (`None` when there was none).
pub fn detect_layout(reply: Option<&str>) -> (r: String)
    ensures
        r@ == detected_layout(reply_keyboards(reply)),
{
    layout_of_keyboards(keyboards_of(reply))
}

/// The layout the compositor reports for `device_name`, from the
/// `hyprctl devices -j` reply (`None` when there was none).
pub fn device_layout(reply: Option<&str>, device_name: &str) -> (r: Option<String>)
    ensures
        opt_view(r) == device_layout_of(reply_keyboards(reply), device_name@),
{
    keyboard_layout(keyboards_of(reply), device_name)
}

} // verus!
