# Wooting Switch

Wooting Switch selects the onboard profile of a Wooting keyboard that belongs
to the operating system the keyboard is plugged into, and keeps it selected.

The crate is a Verus library with a thin command-line program around it.

- `src/` — the verified library:
  - `protocol` — HID command reports, response validation, the legacy and
    heartbeat state queries, profile metadata, and the enforcement rule;
  - `switch` — the profile-switch session as a state machine that always
    hands WootDev ownership back once it has claimed it;
  - `watcher` — the background watcher's decisions (device checks,
    enforcement, back-off while Wootility edits, disconnect after repeated
    failures);
  - `config` — configuration validation and scoped updates;
  - `profiles` — profile listing with its fallback order;
  - `wootility` — Wootility's browser state (Chromium strings, JSON);
  - `ipc` — the authenticated loopback control protocol and its token;
  - `text` — string helpers with specifications.
- `tests/` — tests of the library.
- `app/` — the program: command line, files, HID transports, sockets,
  start-at-login registration and the Windows dialog.
