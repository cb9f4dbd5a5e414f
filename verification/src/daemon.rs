//! Starting, stopping and watching the daemons from the configurator.
//!
//! Which program is controlled depends on the role (host or client) and on
//! the system: the host daemon only runs on Windows; on Linux the client may
//! be a systemd user service. Running the commands is left to the caller:
//! these functions say which commands to run and what their output means.
use vstd::prelude::*;
use crate::text::{contains_seq, join, join_strings, lines, split_lines, str_contains, views};
use crate::paths::{joined, separator_for};

verus! {

/// Which daemon a panel controls.
#[derive(Debug, Clone, Copy, PartialEq, Eq, Structural)]
pub enum Target {
    Server,
    Client,
}

/// The daemon's executable name on Windows or elsewhere.
pub open spec fn exe_name_of(t: Target, windows: bool) -> Seq<char> {
    match (t, windows) {
        (Target::Server, true) => "yzendris-server.exe"@,
        (Target::Client, true) => "yzendris-client.exe"@,
        (Target::Server, false) => "yzendris-server"@,
        (Target::Client, false) => "yzendris-client"@,
    }
}

/// See [`exe_name_of`].
pub fn exe_name(t: Target, windows: bool) -> (r: &'static str)
    ensures
        r@ == exe_name_of(t, windows),
{
    match (t, windows) {
        (Target::Server, true) => "yzendris-server.exe",
        (Target::Client, true) => "yzendris-client.exe",
        (Target::Server, false) => "yzendris-server",
        (Target::Client, false) => "yzendris-client",
    }
}

/// Latest known status of a daemon.
#[derive(Debug, Clone)]
pub struct DaemonState {
    pub running: bool,
    pub log: String,
}

impl Default for DaemonState {
    fn default() -> (r: Self)
        ensures
            !r.running,
            r.log@ == Seq::<char>::empty(),
    {
        DaemonState { running: false, log: String::new() }
    }
}

impl DaemonState {
    /// The state shown before the first poll: not running, log being queried.
    pub fn checking() -> (r: Self)
        ensures
            !r.running,
            r.log@ == "(consultando…)"@,
    {
        DaemonState { running: false, log: String::from_str("(consultando…)") }
    }
}

/// A program to run and its arguments.
#[derive(Debug)]
pub struct Command {
    pub program: String,
    pub args: Vec<String>,
}

/// A command by its characters.
pub open spec fn command_view(c: Command) -> (Seq<char>, Seq<Seq<char>>) {
    (c.program@, views(c.args@))
}

/// A command from a program name and its arguments.
fn command(program: &str, args: Vec<String>) -> (r: Command)
    ensures
        r.program@ == program@,
        r.args@ == args@,
{
    Command { program: program.to_owned(), args }
}

/// Owned copy of a piece of text.
fn owned(s: &str) -> (r: String)
    ensures
        r@ == s@,
{
    s.to_owned()
}

/// The command that tells whether the daemon runs: `tasklist` filtered on its
/// image name on Windows, `pgrep -x` for the client elsewhere; none for the
/// host outside Windows (it never runs there).
pub open spec fn running_probe_of(t: Target, windows: bool) -> Option<(Seq<char>, Seq<Seq<char>>)> {
    if windows {
        Some(("tasklist"@, seq!["/FI"@, "IMAGENAME eq "@ + exe_name_of(t, true), "/FO"@, "CSV"@, "/NH"@]))
    } else if t == Target::Server {
        None
    } else {
        Some(("pgrep"@, seq!["-x"@, exe_name_of(t, false)]))
    }
}

/// See [`running_probe_of`].
pub fn running_probe(t: Target, windows: bool) -> (r: Option<Command>)
    ensures
        match r {
            Some(c) => running_probe_of(t, windows) == Some(command_view(c)),
            None => running_probe_of(t, windows) is None,
        },
{
    let exe = exe_name(t, windows);
    if windows {
        let mut filter = String::from_str("IMAGENAME eq ");
        filter.append(exe);
        let c = command("tasklist", vec![owned("/FI"), filter, owned("/FO"), owned("CSV"), owned("/NH")]);
        assert(views(c.args@) =~= seq!["/FI"@, "IMAGENAME eq "@ + exe_name_of(t, true), "/FO"@, "CSV"@, "/NH"@]);
        Some(c)
    } else if t == Target::Server {
        None
    } else {
        let c = command("pgrep", vec![owned("-x"), owned(exe)]);
        assert(views(c.args@) =~= seq!["-x"@, exe_name_of(t, false)]);
        Some(c)
    }
}

/// Whether the daemon runs, from the probe's outcome (`None`: it could not be
/// run): on Windows, the listing names the executable; elsewhere, `pgrep`
/// found it.
pub open spec fn daemon_running_spec(t: Target, windows: bool, probe: Option<(bool, Seq<char>)>) -> bool {
    match probe {
        None => false,
        Some((success, stdout)) => if windows {
            contains_seq(stdout, exe_name_of(t, true))
        } else {
            t == Target::Client && success
        },
    }
}

/// See [`daemon_running_spec`]; `probe` is the probe's exit success and output.
pub fn daemon_running(t: Target, windows: bool, probe: Option<(bool, &str)>) -> (r: bool)
    ensures
        r == daemon_running_spec(t, windows, match probe {
            Some((s, o)) => Some((s, o@)),
            None => None,
        }),
{
    match probe {
        None => false,
        Some((success, stdout)) => {
            if windows {
                str_contains(stdout, exe_name(t, true))
            } else {
                t == Target::Client && success
            }
        },
    }
}

/// How to start a daemon.
#[derive(Debug)]
pub enum StartPlan {
    /// This daemon does not run on this system.
    Refused(String),
    /// Try `service` first when there is one; if it is absent or fails, run
    /// the first of `binaries` that is found, with `args`. Report `missing`
    /// when none is found, and `spawn_failed` followed by the error when the
    /// program cannot be started.
    Launch {
        service: Option<Command>,
        binaries: Vec<String>,
        args: Vec<String>,
        missing: String,
        spawn_failed: String,
    },
}

/// Start plan on Windows: the daemon's executable with `--config` and its
/// configuration file.
pub open spec fn windows_start(t: Target, config_path: Seq<char>) -> (Seq<Seq<char>>, Seq<Seq<char>>, Seq<char>, Seq<char>) {
    (
        seq![exe_name_of(t, true)],
        seq!["--config"@, config_path],
        exe_name_of(t, true) + " no encontrado (¿compilaste con cargo build --release?)"@,
        "no se pudo iniciar "@ + exe_name_of(t, true) + ": "@,
    )
}

/// Start plan for the client elsewhere: the systemd user service when its
/// unit is installed, else the wrapper script or the executable, no arguments.
pub open spec fn linux_client_start() -> (Seq<Seq<char>>, Seq<Seq<char>>, Seq<char>, Seq<char>) {
    (
        seq!["yzendris-client-wrapper.sh"@, "yzendris-client"@],
        Seq::empty(),
        "yzendris-client no encontrado"@,
        "no se pudo iniciar el cliente: "@,
    )
}

/// The systemctl command that starts or stops the client's user service.
pub open spec fn service_command(verb: Seq<char>) -> (Seq<char>, Seq<Seq<char>>) {
    ("systemctl"@, seq!["--user"@, verb, "yzendris-client.service"@])
}

/// How to start the daemon `t`, given its configuration file and whether the
/// client's systemd unit is installed.
pub fn start_daemon(t: Target, windows: bool, config_path: &str, systemd_installed: bool) -> (r: StartPlan)
    ensures
        match r {
            StartPlan::Refused(m) => !windows && t == Target::Server && m@
                == "el servidor (host) solo corre en Windows"@,
            StartPlan::Launch { service, binaries, args, missing, spawn_failed } => if windows {
                &&& service is None
                &&& (views(binaries@), views(args@), missing@, spawn_failed@) == windows_start(t, config_path@)
            } else {
                &&& t == Target::Client
                &&& (views(binaries@), views(args@), missing@, spawn_failed@) == linux_client_start()
                &&& if systemd_installed {
                    service is Some && command_view(service->0) == service_command("start"@)
                } else {
                    service is None
                }
            },
        },
{
    if windows {
        let exe = exe_name(t, true);
        let mut binaries: Vec<String> = Vec::new();
        binaries.push(exe.to_owned());
        let mut args: Vec<String> = Vec::new();
        args.push(String::from_str("--config"));
        args.push(config_path.to_owned());
        let mut missing = exe.to_owned();
        missing.append(" no encontrado (¿compilaste con cargo build --release?)");
        let mut spawn_failed = String::from_str("no se pudo iniciar ");
        spawn_failed.append(exe);
        spawn_failed.append(": ");
        assert(views(binaries@) =~= seq![exe_name_of(t, true)]);
        assert(views(args@) =~= seq!["--config"@, config_path@]);
        StartPlan::Launch { service: None, binaries, args, missing, spawn_failed }
    } else if t == Target::Server {
        StartPlan::Refused(String::from_str("el servidor (host) solo corre en Windows"))
    } else {
        let service = if systemd_installed {
            let c = command("systemctl", vec![owned("--user"), owned("start"), owned("yzendris-client.service")]);
            assert(views(c.args@) =~= seq!["--user"@, "start"@, "yzendris-client.service"@]);
            Some(c)
        } else {
            None
        };
        let mut binaries: Vec<String> = Vec::new();
        binaries.push(String::from_str("yzendris-client-wrapper.sh"));
        binaries.push(String::from_str("yzendris-client"));
        let args: Vec<String> = Vec::new();
        assert(views(binaries@) =~= seq!["yzendris-client-wrapper.sh"@, "yzendris-client"@]);
        assert(views(args@) =~= Seq::<Seq<char>>::empty());
        StartPlan::Launch {
            service,
            binaries,
            args,
            missing: String::from_str("yzendris-client no encontrado"),
            spawn_failed: String::from_str("no se pudo iniciar el cliente: "),
        }
    }
}

/// The commands that stop the daemon `t`, run in order, their failures
/// ignored but for `taskkill` on Windows: `taskkill /IM exe /F` on Windows;
/// elsewhere nothing for the host, and for the client the service stop (when
/// its unit is installed) then `pkill -x`.
pub open spec fn stop_commands_of(t: Target, windows: bool, systemd_installed: bool) -> Seq<(Seq<char>, Seq<Seq<char>>)> {
    if windows {
        seq![("taskkill"@, seq!["/IM"@, exe_name_of(t, true), "/F"@])]
    } else if t == Target::Server {
        Seq::empty()
    } else if systemd_installed {
        seq![service_command("stop"@), ("pkill"@, seq!["-x"@, exe_name_of(t, false)])]
    } else {
        seq![("pkill"@, seq!["-x"@, exe_name_of(t, false)])]
    }
}

/// See [`stop_commands_of`].
pub fn stop_daemon(t: Target, windows: bool, systemd_installed: bool) -> (r: Vec<Command>)
    ensures
        r@.map_values(|c: Command| command_view(c)) == stop_commands_of(t, windows, systemd_installed),
{
    let mut out: Vec<Command> = Vec::new();
    if windows {
        let c = command("taskkill", vec![owned("/IM"), owned(exe_name(t, true)), owned("/F")]);
        assert(views(c.args@) =~= seq!["/IM"@, exe_name_of(t, true), "/F"@]);
        out.push(c);
    } else if t == Target::Client {
        if systemd_installed {
            let c = command("systemctl", vec![owned("--user"), owned("stop"), owned("yzendris-client.service")]);
            assert(views(c.args@) =~= seq!["--user"@, "stop"@, "yzendris-client.service"@]);
            out.push(c);
        }
        let c = command("pkill", vec![owned("-x"), owned(exe_name(t, false))]);
        assert(views(c.args@) =~= seq!["-x"@, exe_name_of(t, false)]);
        out.push(c);
    }
    assert(out@.map_values(|c: Command| command_view(c)) =~= stop_commands_of(t, windows, systemd_installed));
    out
}

/// The last `max_lines` lines of `text` (all of them when there are fewer),
/// joined with line feeds.
pub open spec fn log_tail(text: Seq<char>, max_lines: nat) -> Seq<char> {
    let ls = lines(text);
    let start = if ls.len() > max_lines { ls.len() - max_lines } else { 0 };
    join(ls.subrange(start, ls.len() as int), "\n"@)
}

/// See [`log_tail`].
pub fn read_log_tail(text: &str, max_lines: usize) -> (r: String)
    ensures
        r@ == log_tail(text@, max_lines as nat),
{
    let ls = split_lines(text);
    let n = ls.len();
    let start = if n > max_lines { n - max_lines } else { 0 };
    let r = join_strings(&ls, start, n, "\n");
    proof {
        let a = ls@.subrange(start as int, n as int).map_values(|p: String| p@);
        let b = lines(text@).subrange(start as int, n as int);
        assert(a =~= b);
    }
    r
}

/// What the log panel shows when the host's log file cannot be read.
pub fn missing_log_text(path: &str) -> (r: String)
    ensures
        r@ == "(sin log todavía: "@ + path@ + ")"@,
{
    let mut s = String::from_str("(sin log todavía: ");
    s.append(path);
    s.append(")");
    s
}

/// What the log panel shows outside Windows: a note for the host (it does
/// not run there), else the journal's output when `journalctl` succeeded,
/// else a note that the journal could not be read.
pub fn journal_log_text(t: Target, journal: Option<String>) -> (r: String)
    ensures
        t == Target::Server ==> r@ == "(el servidor solo corre en Windows)"@,
        t == Target::Client ==> match journal {
            Some(j) => r@ == j@,
            None => r@ == "(sin acceso al log — ¿está instalada la unidad systemd?)"@,
        },
{
    if t == Target::Server {
        return String::from_str("(el servidor solo corre en Windows)");
    }
    match journal {
        Some(j) => j,
        None => String::from_str("(sin acceso al log — ¿está instalada la unidad systemd?)"),
    }
}

/// The `journalctl` command that prints the client service's last lines.
pub fn journal_command(max_lines: usize) -> (r: Command)
    ensures
        r.program@ == "journalctl"@,
        views(r.args@) == seq![
            "--user"@,
            "-u"@,
            "yzendris-client"@,
            "-n"@,
            crate::text::decimal(max_lines as nat),
            "--no-pager"@,
            "--output"@,
            "cat"@,
        ],
{
    let mut n = String::new();
    crate::text::push_decimal(&mut n, max_lines as u64);
    let c = command(
        "journalctl",
        vec![owned("--user"), owned("-u"), owned("yzendris-client"), owned("-n"), n, owned("--no-pager"), owned("--output"), owned("cat")],
    );
    assert(views(c.args@) =~= seq![
        "--user"@,
        "-u"@,
        "yzendris-client"@,
        "-n"@,
        crate::text::decimal(max_lines as nat),
        "--no-pager"@,
        "--output"@,
        "cat"@,
    ]);
    c
}

/// Where the daemon's program `name` is looked for, in order: next to the
/// configurator (`exe_dir`), in the configuration directory, in
/// `~/.local/bin` (not on Windows), then in the build directories; paths use
/// the separator of the platform.
pub open spec fn daemon_candidates_of(
    name: Seq<char>,
    exe_dir: Option<Seq<char>>,
    config_dir: Seq<char>,
    home: Option<Seq<char>>,
    windows: bool,
) -> Seq<Seq<char>> {
    let sep = separator_for(windows);
    let first = match exe_dir {
        Some(d) => seq![joined(d, name, sep)],
        None => Seq::empty(),
    };
    let local = match home {
        Some(h) => if windows { Seq::empty() } else { seq![joined(joined(h, ".local/bin"@, sep), name, sep)] },
        None => Seq::empty(),
    };
    first + seq![joined(config_dir, name, sep)] + local + seq![
        joined("target/release"@, name, sep),
        joined("target/debug"@, name, sep),
    ]
}

/// See [`daemon_candidates_of`].
pub fn daemon_candidates(name: &str, exe_dir: Option<&str>, config_dir: &str, home: Option<&str>, windows: bool) -> (r: Vec<String>)
    ensures
        views(r@) == daemon_candidates_of(
                name@,
                match exe_dir {
                    Some(d) => Some(d@),
                    None => None,
                },
                config_dir@,
                match home {
                    Some(h) => Some(h@),
                    None => None,
                },
                windows,
            ),
{
    let sep = if windows { '\\' } else { '/' };
    let mut out: Vec<String> = Vec::new();
    if let Some(d) = exe_dir {
        out.push(crate::paths::join_with(d, name, sep));
    }
    out.push(crate::paths::join_with(config_dir, name, sep));
    if let Some(h) = home {
        if !windows {
            let local = crate::paths::join_with(h, ".local/bin", sep);
            out.push(crate::paths::join_with(local.as_str(), name, sep));
        }
    }
    out.push(crate::paths::join_with("target/release", name, sep));
    out.push(crate::paths::join_with("target/debug", name, sep));
    assert(views(out@) =~= daemon_candidates_of(
        name@,
        match exe_dir {
            Some(d) => Some(d@),
            None => None,
        },
        config_dir@,
        match home {
            Some(h) => Some(h@),
            None => None,
        },
        windows,
    ));
    out
}

/// After the configurator saves a daemon's settings: whether to restart the
/// daemon (it was running and the save worked) and the message to show.
pub fn save_outcome(t: Target, saved: Result<(), String>, running: bool) -> (r: (bool, String))
    ensures
        r.0 == (saved is Ok && running),
        match saved {
            Ok(_) => r.1@ == (if running {
                if t == Target::Server { "✔ Guardado, reiniciando servidor…"@ } else { "✔ Guardado, reiniciando cliente…"@ }
            } else {
                "✔ Configuración guardada"@
            }),
            Err(e) => r.1@ == "✘ Error al guardar: "@ + e@,
        },
{
    match saved {
        Ok(()) => {
            if running {
                if t == Target::Server {
                    (true, String::from_str("✔ Guardado, reiniciando servidor…"))
                } else {
                    (true, String::from_str("✔ Guardado, reiniciando cliente…"))
                }
            } else {
                (false, String::from_str("✔ Configuración guardada"))
            }
        },
        Err(e) => {
            let mut m = String::from_str("✘ Error al guardar: ");
            m.append(e.as_str());
            (false, m)
        },
    }
}

} // verus!
