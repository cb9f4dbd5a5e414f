# yzendris

A software KVM: a Windows host shares its keyboard and mouse with client
machines (Linux under Hyprland, or Windows) over TCP, optionally with TLS
pinned by certificate fingerprint. Moving the cursor past a configured edge
of the host desktop (or into the gap between two monitors) hands input to a
client; pushing the matching edge of the client screen hands it back.

## Layout

- `src/` — the library, verified with Verus. Each module states its
  behaviour in `requires`/`ensures` over mathematical models, and the laws
  that span several functions are public proof functions.
  - `keys` — host scancodes to evdev codes and back; the set of held keys.
  - `protocol` — the events and their length-prefixed framing.
  - `hook` — the host's capture state machine: entering a client, what is
    sent while captured, the release combo, handing control back.
  - `tracker` — the client's cursor estimate and edge push detection.
  - `inject` — kernel events for the Linux virtual device; input records
    and held-input tracking for a Windows client.
  - `session` — per-event decisions of live connections and the reconnection
    back-off.
  - `monitors`, `resolve`, `edge`, `arrangement` — monitors, where each client
    sits, and the configurator's placement model.
  - `config`, `paths`, `daemon`, `setup` — settings and their defaults, file
    locations, daemon control and installation plans.
  - `hyprland` — the compositor's command syntax and replies.
  - `fingerprint` — SHA-256 certificate fingerprints and the trust decision.
  - `text` — string helpers stated over characters.
- `tests/` — tests of the library on concrete values.
- `app/` — the programs around the library: `yzendris client` (uinput,
  Hyprland, TLS listener), the host's network side, and the
  `status`/`log`/`start`/`stop`/`setup` commands.

### Not part of this build

The programs in `app/` cover the Linux client and the host's network side.
They do not include:

- the host's input capture backend (the Windows low-level keyboard and mouse
  hooks that feed `hook::HookState`), so `yzendris server` reports that no
  capture backend is available and exits;
- the Windows client's input injection (the `SendInput` calls that would play
  the records built by `inject::Injector`);
- listing and repositioning monitors through the operating system;
- the graphical configurator; its placement rules are in `arrangement`.

The decisions each of these would make are in the library and are tested
there; only the operating-system calls around them are missing.
