//! Where the program keeps its files: one directory per user holding the
//! daemons' configuration, the trusted peers and the logs.
use vstd::prelude::*;

verus! {

/// Whether `c` separates path components: '/' everywhere, and the platform's
/// own separator `sep` (which is '\\' on Windows).
pub open spec fn is_separator(c: char, sep: char) -> bool {
    c == '/' || c == sep
}

/// `dir` joined with the relative name `name` (as `PathBuf::join` does for a
/// directory that is not a bare drive prefix): no separator is added after an
/// empty directory or one that already ends with a separator.
pub open spec fn joined(dir: Seq<char>, name: Seq<char>, sep: char) -> Seq<char> {
    if dir.len() == 0 {
        name
    } else if is_separator(dir.last(), sep) {
        dir + name
    } else {
        dir + seq![sep] + name
    }
}

/// The path separator of the platform: '\\' on Windows, '/' elsewhere.
pub open spec fn separator_for(windows: bool) -> char {
    if windows { '\\' } else { '/' }
}

/// Join `name` onto `dir` with the separator `sep`.
pub(crate) fn join_with(dir: &str, name: &str, sep: char) -> (r: String)
    ensures
        r@ == joined(dir@, name@, sep),
{
    let n = dir.unicode_len();
    let mut out = dir.to_owned();
    if n > 0 {
        let last = dir.get_char(n - 1);
        if !(last == '/' || last == sep) {
            crate::text::push_char(&mut out, sep);
        }
    }
    out.append(name);
    proof {
        if n > 0 {
            assert(dir@.last() == dir@[n - 1]);
        } else {
            assert(dir@ =~= Seq::<char>::empty());
        }
    }
    assert(out@ =~= joined(dir@, name@, sep));
    out
}

/// `dir` joined with `name` using the separator of the platform (Windows
/// when `windows`).
pub fn join_path(dir: &str, name: &str, windows: bool) -> (r: String)
    ensures
        r@ == joined(dir@, name@, separator_for(windows)),
{
    join_with(dir, name, if windows { '\\' } else { '/' })
}

/// The per-user directory of the program: `%APPDATA%\yzendris` on Windows
/// (`yzendris` without APPDATA); elsewhere `$XDG_CONFIG_HOME/yzendris`, else
/// `$HOME/.config/yzendris`, else `yzendris`.
pub open spec fn config_dir_of(
    windows: bool,
    appdata: Option<Seq<char>>,
    xdg: Option<Seq<char>>,
    home: Option<Seq<char>>,
    sep: char,
) -> Seq<char> {
    if windows {
        match appdata {
            Some(d) => joined(d, "yzendris"@, sep),
            None => "yzendris"@,
        }
    } else {
        match xdg {
            Some(x) => joined(x, "yzendris"@, sep),
            None => match home {
                Some(h) => joined(joined(h, ".config"@, sep), "yzendris"@, sep),
                None => "yzendris"@,
            },
        }
    }
}

/// See [`config_dir_of`]; the environment values are those of APPDATA,
/// XDG_CONFIG_HOME and HOME.
pub fn config_dir(windows: bool, appdata: Option<&str>, xdg: Option<&str>, home: Option<&str>) -> (r: String)
    ensures
        r@ == config_dir_of(
                windows,
                match appdata {
                    Some(d) => Some(d@),
                    None => None,
                },
                match xdg {
                    Some(d) => Some(d@),
                    None => None,
                },
                match home {
                    Some(d) => Some(d@),
                    None => None,
                },
                separator_for(windows),
            ),
{
    let sep = if windows { '\\' } else { '/' };
    if windows {
        match appdata {
            Some(d) => join_with(d, "yzendris", sep),
            None => String::from_str("yzendris"),
        }
    } else {
        match xdg {
            Some(x) => join_with(x, "yzendris", sep),
            None => match home {
                Some(h) => {
                    let c = join_with(h, ".config", sep);
                    join_with(c.as_str(), "yzendris", sep)
                },
                None => String::from_str("yzendris"),
            },
        }
    }
}

/// The host daemon's configuration file in `dir` (with the separator of the
/// platform, Windows when `windows`).
pub fn server_config_path(dir: &str, windows: bool) -> (r: String)
    ensures
        r@ == joined(dir@, "server.toml"@, separator_for(windows)),
{
    join_path(dir, "server.toml", windows)
}

/// The client daemon's configuration file in `dir`.
pub fn client_config_path(dir: &str, windows: bool) -> (r: String)
    ensures
        r@ == joined(dir@, "client.toml"@, separator_for(windows)),
{
    join_path(dir, "client.toml", windows)
}

/// The configurator's own settings in `dir`.
pub fn gui_config_path(dir: &str, windows: bool) -> (r: String)
    ensures
        r@ == joined(dir@, "gui.toml"@, separator_for(windows)),
{
    join_path(dir, "gui.toml", windows)
}

/// The fingerprints the host trusts, in `dir`.
pub fn trusted_peers_path(dir: &str, windows: bool) -> (r: String)
    ensures
        r@ == joined(dir@, "trusted_peers.txt"@, separator_for(windows)),
{
    join_path(dir, "trusted_peers.txt", windows)
}

/// The host daemon's log in `dir`.
pub fn server_log_path(dir: &str, windows: bool) -> (r: String)
    ensures
        r@ == joined(dir@, "server.log"@, separator_for(windows)),
{
    join_path(dir, "server.log", windows)
}

/// The client daemon's log in `dir`.
pub fn client_log_path(dir: &str, windows: bool) -> (r: String)
    ensures
        r@ == joined(dir@, "client.log"@, separator_for(windows)),
{
    join_path(dir, "client.log", windows)
}

/// What a directory contributes to a path joined onto it: the directory
/// itself, with a separator added when it needs one.
pub open spec fn dir_prefix(dir: Seq<char>, sep: char) -> Seq<char> {
    if dir.len() == 0 || is_separator(dir.last(), sep) {
        dir
    } else {
        dir + seq![sep]
    }
}

/// A name joined onto a directory is that directory's prefix followed by the name.
pub proof fn lemma_joined_is_prefix_then_name(dir: Seq<char>, name: Seq<char>, sep: char)
    ensures
        joined(dir, name, sep) == dir_prefix(dir, sep) + name,
{
    if dir.len() == 0 {
        assert(dir + name =~= name);
    }
}

/// The files kept in the configuration directory all lie in that one
/// directory (the same prefix, then their own name), and no two of them are
/// the same path.
pub proof fn lemma_config_files_share_dir(dir: Seq<char>, windows: bool)
    ensures
        ({
            let sep = separator_for(windows);
            let names = seq![
                "server.toml"@,
                "client.toml"@,
                "gui.toml"@,
                "trusted_peers.txt"@,
                "server.log"@,
                "client.log"@,
            ];
            &&& forall|k: int| 0 <= k < 6 ==> #[trigger] joined(dir, names[k], sep) == dir_prefix(dir, sep) + names[k]
            &&& forall|a: int, b: int| 0 <= a < b < 6 ==> joined(dir, #[trigger] names[a], sep) != joined(dir, #[trigger] names[b], sep)
        }),
{
    let sep = separator_for(windows);
    reveal_strlit("server.toml");
    reveal_strlit("client.toml");
    reveal_strlit("gui.toml");
    reveal_strlit("trusted_peers.txt");
    reveal_strlit("server.log");
    reveal_strlit("client.log");
    let names = seq![
        "server.toml"@,
        "client.toml"@,
        "gui.toml"@,
        "trusted_peers.txt"@,
        "server.log"@,
        "client.log"@,
    ];
    let p = dir_prefix(dir, sep);
    assert forall|k: int| 0 <= k < 6 implies #[trigger] joined(dir, names[k], sep) == p + names[k] by {
        lemma_joined_is_prefix_then_name(dir, names[k], sep);
    }
    assert forall|a: int, b: int| 0 <= a < b < 6 implies joined(dir, #[trigger] names[a], sep) != joined(dir, #[trigger] names[b], sep) by {
        lemma_joined_is_prefix_then_name(dir, names[a], sep);
        lemma_joined_is_prefix_then_name(dir, names[b], sep);
        if joined(dir, names[a], sep) == joined(dir, names[b], sep) {
            assert((p + names[a]).skip(p.len() as int) =~= names[a]);
            assert((p + names[b]).skip(p.len() as int) =~= names[b]);
            assert(names[a] == names[b]);
            assert(names[a].len() != names[b].len() || names[a][0] != names[b][0] || names[a][6] != names[b][6]);
        }
    }
}

} // verus!
