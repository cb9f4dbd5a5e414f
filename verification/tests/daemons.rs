use yzendris::daemon::{
    save_outcome, daemon_running, exe_name, journal_command, journal_log_text, missing_log_text, read_log_tail, running_probe,
    start_daemon, stop_daemon, DaemonState, StartPlan, Target,
};
use yzendris::setup::{
    elevated_command, install_script, installed_message, linux_setup_result, missing_binary_message, ufw_command,
};
use yzendris::paths::{
    client_config_path, client_log_path, config_dir, gui_config_path, join_path, server_config_path, server_log_path,
    trusted_peers_path,
};

#[test]
fn executable_names_per_system() {
    assert_eq!(exe_name(Target::Server, true), "yzendris-server.exe");
    assert_eq!(exe_name(Target::Client, true), "yzendris-client.exe");
    assert_eq!(exe_name(Target::Client, false), "yzendris-client");
}

#[test]
fn initial_states() {
    let d = DaemonState::default();
    assert!(!d.running && d.log.is_empty());
    let c = DaemonState::checking();
    assert!(!c.running);
    assert_eq!(c.log, "(consultando…)");
}

#[test]
fn running_is_probed_per_system() {
    let p = running_probe(Target::Server, true).unwrap();
    assert_eq!(p.program, "tasklist");
    assert_eq!(p.args, vec!["/FI", "IMAGENAME eq yzendris-server.exe", "/FO", "CSV", "/NH"]);
    assert!(running_probe(Target::Server, false).is_none());
    let p = running_probe(Target::Client, false).unwrap();
    assert_eq!(p.program, "pgrep");
    assert_eq!(p.args, vec!["-x", "yzendris-client"]);

    let listing = "\"yzendris-client.exe\",\"4242\",\"Console\",\"1\",\"9,000 K\"";
    assert!(daemon_running(Target::Client, true, Some((true, listing))));
    assert!(!daemon_running(Target::Server, true, Some((true, listing))));
    assert!(daemon_running(Target::Client, false, Some((true, ""))));
    assert!(!daemon_running(Target::Client, false, Some((false, ""))));
    assert!(!daemon_running(Target::Server, false, Some((true, ""))));
    assert!(!daemon_running(Target::Client, true, None));
}

#[test]
fn start_plans() {
    match start_daemon(Target::Server, true, "C:\\cfg\\server.toml", false) {
        StartPlan::Launch { service, binaries, args, missing, spawn_failed } => {
            assert!(service.is_none());
            assert_eq!(binaries, vec!["yzendris-server.exe"]);
            assert_eq!(args, vec!["--config", "C:\\cfg\\server.toml"]);
            assert_eq!(missing, "yzendris-server.exe no encontrado (¿compilaste con cargo build --release?)");
            assert_eq!(spawn_failed, "no se pudo iniciar yzendris-server.exe: ");
        }
        other => panic!("unexpected {other:?}"),
    }
    match start_daemon(Target::Server, false, "x", true) {
        StartPlan::Refused(m) => assert_eq!(m, "el servidor (host) solo corre en Windows"),
        other => panic!("unexpected {other:?}"),
    }
    match start_daemon(Target::Client, false, "x", true) {
        StartPlan::Launch { service, binaries, args, missing, .. } => {
            let svc = service.unwrap();
            assert_eq!(svc.program, "systemctl");
            assert_eq!(svc.args, vec!["--user", "start", "yzendris-client.service"]);
            assert_eq!(binaries, vec!["yzendris-client-wrapper.sh", "yzendris-client"]);
            assert!(args.is_empty());
            assert_eq!(missing, "yzendris-client no encontrado");
        }
        other => panic!("unexpected {other:?}"),
    }
    match start_daemon(Target::Client, false, "x", false) {
        StartPlan::Launch { service, .. } => assert!(service.is_none()),
        other => panic!("unexpected {other:?}"),
    }
}

#[test]
fn stop_commands() {
    let c = stop_daemon(Target::Client, true, true);
    assert_eq!(c.len(), 1);
    assert_eq!(c[0].program, "taskkill");
    assert_eq!(c[0].args, vec!["/IM", "yzendris-client.exe", "/F"]);
    assert!(stop_daemon(Target::Server, false, true).is_empty());
    let c = stop_daemon(Target::Client, false, true);
    assert_eq!(c.len(), 2);
    assert_eq!(c[0].args, vec!["--user", "stop", "yzendris-client.service"]);
    assert_eq!(c[1].program, "pkill");
    assert_eq!(c[1].args, vec!["-x", "yzendris-client"]);
    assert_eq!(stop_daemon(Target::Client, false, false).len(), 1);
}

#[test]
fn log_tail_keeps_the_last_lines() {
    let text = "one\ntwo\r\nthree\nfour\n";
    assert_eq!(read_log_tail(text, 2), "three\nfour");
    assert_eq!(read_log_tail(text, 14), "one\ntwo\nthree\nfour");
    assert_eq!(read_log_tail(text, 0), "");
    assert_eq!(read_log_tail("", 3), "");
    assert_eq!(read_log_tail("a\n\nb", 2), "\nb");
    assert_eq!(missing_log_text("C:\\x\\server.log"), "(sin log todavía: C:\\x\\server.log)");
    assert_eq!(journal_log_text(Target::Server, Some("x".into())), "(el servidor solo corre en Windows)");
    assert_eq!(journal_log_text(Target::Client, Some("log".into())), "log");
    assert_eq!(
        journal_log_text(Target::Client, None),
        "(sin acceso al log — ¿está instalada la unidad systemd?)"
    );
    let j = journal_command(14);
    assert_eq!(j.program, "journalctl");
    assert_eq!(j.args, vec!["--user", "-u", "yzendris-client", "-n", "14", "--no-pager", "--output", "cat"]);
}

#[test]
fn files_live_in_the_config_dir() {
    let dir = "base";
    assert_eq!(server_config_path(dir, false), "base/server.toml");
    assert_eq!(client_config_path(dir, false), "base/client.toml");
    assert_eq!(gui_config_path(dir, false), "base/gui.toml");
    assert_eq!(trusted_peers_path(dir, false), "base/trusted_peers.txt");
    assert_eq!(server_log_path(dir, false), "base/server.log");
    assert_eq!(client_log_path(dir, false), "base/client.log");
    assert_eq!(server_config_path("C:\\Users\\u\\yzendris", true), "C:\\Users\\u\\yzendris\\server.toml");
    assert_eq!(client_log_path("dir/", true), "dir/client.log");
    assert_eq!(join_path("base/", "x", false), "base/x");
    assert_eq!(join_path("base\\", "x", false), "base\\/x");
    assert_eq!(join_path("", "x", true), "x");
    assert_eq!(join_path("a", "b", false), "a/b");
    assert_eq!(join_path("a", "b", true), "a\\b");
}

#[test]
fn the_config_dir_follows_the_environment() {
    assert_eq!(config_dir(true, Some("C:\\Users\\u\\AppData"), None, None), "C:\\Users\\u\\AppData\\yzendris");
    assert_eq!(config_dir(true, None, Some("/x"), Some("/h")), "yzendris");
    assert_eq!(config_dir(false, None, Some("/xdg"), Some("/home/u")), "/xdg/yzendris");
    assert_eq!(config_dir(false, None, None, Some("/home/u")), "/home/u/.config/yzendris");
    assert_eq!(config_dir(false, Some("/a"), None, None), "yzendris");
}

#[test]
fn daemon_binaries_are_looked_for_in_order() {
    let c = yzendris::daemon::daemon_candidates("yzendris-client", Some("/opt/y"), "/cfg", Some("/home/u"), false);
    assert_eq!(
        c,
        vec![
            "/opt/y/yzendris-client",
            "/cfg/yzendris-client",
            "/home/u/.local/bin/yzendris-client",
            "target/release/yzendris-client",
            "target/debug/yzendris-client",
        ]
    );
    let w = yzendris::daemon::daemon_candidates("x.exe", None, "C", Some("/home/u"), true);
    assert_eq!(w, vec!["C\\x.exe", "target/release\\x.exe", "target/debug\\x.exe"]);
}

#[test]
fn installation_scripts_and_messages() {
    let s = install_script(Target::Client, 7547, "S.exe", "D.exe", "C.toml", "DIR");
    assert!(s.starts_with("$ErrorActionPreference='SilentlyContinue'\nCopy-Item -Force 'S.exe' 'D.exe'\n"));
    assert!(s.contains("-Direction Inbound -Protocol TCP -LocalPort 7547 -Action Allow -Profile Any}\n"));
    assert!(s.contains("$a=New-ScheduledTaskAction -Execute 'D.exe' -Argument '--config \"C.toml\"'\n"));
    assert!(s.ends_with("-Settings $set -Force\n"));
    let h = install_script(Target::Server, 9000, "S", "D", "C", "DIR");
    assert!(h.contains("-Direction Outbound -Protocol TCP -RemotePort 9000 -Action Allow"));
    assert!(h.contains("$s=$w.CreateShortcut(\"$startup\\Yzendris KVM Server.lnk\")\n"));
    assert!(h.contains("$s.WorkingDirectory='DIR'\n$s.IconLocation='D, 0'\n$s.Save()\n"));
    assert_eq!(
        elevated_command("C:\\y\\yz-setup.ps1"),
        "Start-Process powershell -Verb RunAs -Wait -ArgumentList '-NoProfile','-ExecutionPolicy','Bypass','-File','\"C:\\y\\yz-setup.ps1\"'"
    );
    assert_eq!(installed_message("C:\\y"), "✔ Instalado en C:\\y: firewall + inicio automático listos.");
    assert_eq!(missing_binary_message("a.exe"), "a.exe no encontrado (ponlo junto a la GUI)");
    assert_eq!(ufw_command(7547), "ufw allow 7547/tcp comment yzendris");
    assert_eq!(linux_setup_result(Target::Server, true, None, 1), Err("el host (servidor) solo corre en Windows".into()));
    assert_eq!(linux_setup_result(Target::Client, true, None, 1), Ok("systemd: unit habilitada".into()));
    assert_eq!(
        linux_setup_result(Target::Client, false, Some(true), 7547),
        Ok("(corre scripts/install-linux.sh una vez para el autoarranque systemd) · ufw: puerto 7547/tcp abierto".into())
    );
    assert_eq!(
        linux_setup_result(Target::Client, true, Some(false), 80),
        Ok("systemd: unit habilitada · ufw: abre el puerto manualmente: sudo ufw allow 80/tcp".into())
    );
}

#[test]
fn saving_settings_restarts_a_running_daemon() {
    assert_eq!(save_outcome(Target::Server, Ok(()), true), (true, "✔ Guardado, reiniciando servidor…".to_string()));
    assert_eq!(save_outcome(Target::Client, Ok(()), true), (true, "✔ Guardado, reiniciando cliente…".to_string()));
    assert_eq!(save_outcome(Target::Client, Ok(()), false), (false, "✔ Configuración guardada".to_string()));
    assert_eq!(
        save_outcome(Target::Server, Err("disco lleno".into()), true),
        (false, "✘ Error al guardar: disco lleno".to_string())
    );
}
