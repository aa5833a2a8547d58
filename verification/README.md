# campus_net_auto_login

A Windows tray program that keeps a campus network session logged in. This crate is its
decision logic, written in Verus and verified: every public function states what it
returns in `requires` / `ensures`, and the properties that span several calls are proved
as `law_*` proof functions.

## Layout

- `src/settings.rs`: providers, the settings record, normalization, validation, daily
  pause periods and the fallback probe address rule.
- `src/network.rs`: URL parsing, percent encoding, the portal's login and logout URLs and
  what a probe, login or logout response means.
- `src/monitor.rs`: the login backoff, pause switches and the monitor as a state machine
  (`Worker::step`): the caller performs each requested action and reports its outcome.
- `src/credentials.rs`, `src/startup.rs`, `src/time_utils.rs`, `src/ui.rs`: the stored
  password text, the autostart command, timestamps, and the texts and rules of the tray and
  the settings window.
- `src/text.rs`: character-level helpers (trimming, decimal numbers, joining) with their
  specifications.
- `src/*_laws.rs`: properties of settings and of the monitor over all inputs.
- `app/`: the Windows side (WinHTTP, DPAPI, registry, settings file, tray and dialog) that
  performs the library's actions.
