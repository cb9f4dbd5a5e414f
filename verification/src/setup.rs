//! One-step installation of a daemon: on Windows, one elevated PowerShell
//! script copies the program, opens the firewall and enables autostart; on
//! Linux, the client's systemd user unit is enabled and `ufw` is asked to
//! open the port. These functions write the script and the messages; running
//! them is left to the caller.
use vstd::prelude::*;
use crate::daemon::Target;
use crate::text::{decimal, join, push_decimal};

verus! {

/// The Windows installation script for `target`, listening (client) or
/// connecting (host) on `port`: copy `src` to `dst`, add the firewall rule,
/// and register autostart with `--config "cfg"` (a Startup shortcut for the
/// host, a logon task for the client).
pub open spec fn install_script_of(
    target: Target,
    port: u16,
    src: Seq<char>,
    dst: Seq<char>,
    cfg: Seq<char>,
    dir: Seq<char>,
) -> Seq<char> {
    let p = decimal(port as nat);
    let head = "$ErrorActionPreference='SilentlyContinue'\nCopy-Item -Force '"@ + src + "' '"@ + dst + "'\n"@;
    match target {
        Target::Server => head
            + "if(-not(Get-NetFirewallRule -DisplayName 'Yzendris KVM outbound')){New-NetFirewallRule -DisplayName 'Yzendris KVM outbound' -Direction Outbound -Protocol TCP -RemotePort "@
            + p + " -Action Allow -Profile Any}\n$startup=[Environment]::GetFolderPath('Startup')\n$w=New-Object -ComObject WScript.Shell\n$s=$w.CreateShortcut(\"$startup\\Yzendris KVM Server.lnk\")\n$s.TargetPath='"@
            + dst + "'\n$s.Arguments='--config \""@ + cfg + "\"'\n$s.WorkingDirectory='"@ + dir + "'\n$s.IconLocation='"@
            + dst + ", 0'\n$s.Save()\n"@,
        Target::Client => head
            + "if(-not(Get-NetFirewallRule -DisplayName 'Yzendris KVM inbound')){New-NetFirewallRule -DisplayName 'Yzendris KVM inbound' -Direction Inbound -Protocol TCP -LocalPort "@
            + p + " -Action Allow -Profile Any}\n$a=New-ScheduledTaskAction -Execute '"@ + dst + "' -Argument '--config \""@
            + cfg + "\"'\n$t=New-ScheduledTaskTrigger -AtLogOn\n$p=New-ScheduledTaskPrincipal -UserId $env:USERNAME -LogonType Interactive -RunLevel Highest\n$set=New-ScheduledTaskSettingsSet -AllowStartIfOnBatteries -DontStopIfGoingOnBatteries -ExecutionTimeLimit ([TimeSpan]::Zero) -MultipleInstances IgnoreNew\nRegister-ScheduledTask -TaskName 'Yzendris Client' -Action $a -Trigger $t -Principal $p -Settings $set -Force\n"@,
    }
}

/// See [`install_script_of`].
pub fn install_script(target: Target, port: u16, src: &str, dst: &str, cfg: &str, dir: &str) -> (r: String)
    ensures
        r@ == install_script_of(target, port, src@, dst@, cfg@, dir@),
{
    let mut s = String::from_str("$ErrorActionPreference='SilentlyContinue'\nCopy-Item -Force '");
    s.append(src);
    s.append("' '");
    s.append(dst);
    s.append("'\n");
    match target {
        Target::Server => {
            s.append(
                "if(-not(Get-NetFirewallRule -DisplayName 'Yzendris KVM outbound')){New-NetFirewallRule -DisplayName 'Yzendris KVM outbound' -Direction Outbound -Protocol TCP -RemotePort ",
            );
            push_decimal(&mut s, port as u64);
            s.append(
                " -Action Allow -Profile Any}\n$startup=[Environment]::GetFolderPath('Startup')\n$w=New-Object -ComObject WScript.Shell\n$s=$w.CreateShortcut(\"$startup\\Yzendris KVM Server.lnk\")\n$s.TargetPath='",
            );
            s.append(dst);
            s.append("'\n$s.Arguments='--config \"");
            s.append(cfg);
            s.append("\"'\n$s.WorkingDirectory='");
            s.append(dir);
            s.append("'\n$s.IconLocation='");
            s.append(dst);
            s.append(", 0'\n$s.Save()\n");
        },
        Target::Client => {
            s.append(
                "if(-not(Get-NetFirewallRule -DisplayName 'Yzendris KVM inbound')){New-NetFirewallRule -DisplayName 'Yzendris KVM inbound' -Direction Inbound -Protocol TCP -LocalPort ",
            );
            push_decimal(&mut s, port as u64);
            s.append(" -Action Allow -Profile Any}\n$a=New-ScheduledTaskAction -Execute '");
            s.append(dst);
            s.append("' -Argument '--config \"");
            s.append(cfg);
            s.append(
                "\"'\n$t=New-ScheduledTaskTrigger -AtLogOn\n$p=New-ScheduledTaskPrincipal -UserId $env:USERNAME -LogonType Interactive -RunLevel Highest\n$set=New-ScheduledTaskSettingsSet -AllowStartIfOnBatteries -DontStopIfGoingOnBatteries -ExecutionTimeLimit ([TimeSpan]::Zero) -MultipleInstances IgnoreNew\nRegister-ScheduledTask -TaskName 'Yzendris Client' -Action $a -Trigger $t -Principal $p -Settings $set -Force\n",
            );
        },
    }
    assert(s@ =~= install_script_of(target, port, src@, dst@, cfg@, dir@));
    s
}

/// The PowerShell command that runs the script file at `path` elevated (one
/// administrator prompt) and waits for it.
pub open spec fn elevated_command_of(path: Seq<char>) -> Seq<char> {
    "Start-Process powershell -Verb RunAs -Wait -ArgumentList '-NoProfile','-ExecutionPolicy','Bypass','-File','\""@ + path
        + "\"'"@
}

/// See [`elevated_command_of`].
pub fn elevated_command(path: &str) -> (r: String)
    ensures
        r@ == elevated_command_of(path@),
{
    let mut s = String::from_str(
        "Start-Process powershell -Verb RunAs -Wait -ArgumentList '-NoProfile','-ExecutionPolicy','Bypass','-File','\"",
    );
    s.append(path);
    s.append("\"'");
    s
}

/// The message after a successful Windows installation into `dir`.
pub fn installed_message(dir: &str) -> (r: String)
    ensures
        r@ == "✔ Instalado en "@ + dir@ + ": firewall + inicio automático listos."@,
{
    let mut s = String::from_str("✔ Instalado en ");
    s.append(dir);
    s.append(": firewall + inicio automático listos.");
    s
}

/// The error when the daemon's program is not found next to the configurator.
pub fn missing_binary_message(exe: &str) -> (r: String)
    ensures
        r@ == exe@ + " no encontrado (ponlo junto a la GUI)"@,
{
    let mut s = exe.to_owned();
    s.append(" no encontrado (ponlo junto a la GUI)");
    s
}

/// The `ufw` rule that opens `port` to the client (run through `pkexec sh -c`).
pub open spec fn ufw_command_of(port: u16) -> Seq<char> {
    "ufw allow "@ + decimal(port as nat) + "/tcp comment yzendris"@
}

/// See [`ufw_command_of`].
pub fn ufw_command(port: u16) -> (r: String)
    ensures
        r@ == ufw_command_of(port),
{
    let mut s = String::from_str("ufw allow ");
    push_decimal(&mut s, port as u64);
    s.append("/tcp comment yzendris");
    s
}

/// The notes a Linux installation reports: the systemd unit enabled (when
/// installed) or a hint to install it; then, when `ufw` is present
/// (`ufw_opened` is `Some`), whether the port was opened or how to open it.
pub open spec fn linux_notes_of(systemd_installed: bool, ufw_opened: Option<bool>, port: u16) -> Seq<Seq<char>> {
    let first = if systemd_installed {
        "systemd: unit habilitada"@
    } else {
        "(corre scripts/install-linux.sh una vez para el autoarranque systemd)"@
    };
    match ufw_opened {
        None => seq![first],
        Some(true) => seq![first, "ufw: puerto "@ + decimal(port as nat) + "/tcp abierto"@],
        Some(false) => seq![first, "ufw: abre el puerto manualmente: sudo ufw allow "@ + decimal(port as nat) + "/tcp"@],
    }
}

/// The outcome of installing `target` on Linux: the host is refused (it only
/// runs on Windows); for the client, the notes joined by " · ".
pub fn linux_setup_result(target: Target, systemd_installed: bool, ufw_opened: Option<bool>, port: u16) -> (r: Result<String, String>)
    ensures
        match r {
            Err(m) => target == Target::Server && m@ == "el host (servidor) solo corre en Windows"@,
            Ok(m) => target == Target::Client && m@ == join(linux_notes_of(systemd_installed, ufw_opened, port), " · "@),
        },
{
    if target == Target::Server {
        return Err(String::from_str("el host (servidor) solo corre en Windows"));
    }
    let mut s = if systemd_installed {
        String::from_str("systemd: unit habilitada")
    } else {
        String::from_str("(corre scripts/install-linux.sh una vez para el autoarranque systemd)")
    };
    let ghost first = s@;
    match ufw_opened {
        None => {},
        Some(true) => {
            s.append(" · ");
            s.append("ufw: puerto ");
            push_decimal(&mut s, port as u64);
            s.append("/tcp abierto");
        },
        Some(false) => {
            s.append(" · ");
            s.append("ufw: abre el puerto manualmente: sudo ufw allow ");
            push_decimal(&mut s, port as u64);
            s.append("/tcp");
        },
    }
    proof {
        let ns = linux_notes_of(systemd_installed, ufw_opened, port);
        assert(ns[0] == first);
        if ns.len() == 2 {
            assert(ns.drop_last() =~= seq![first]);
            assert(join(ns.drop_last(), " · "@) == first);
        }
        assert(s@ =~= join(ns, " · "@));
    }
    Ok(s)
}

} // verus!
