# openvpn_profiles

A desktop OpenVPN client for Linux that keeps a library of named profiles and lets
NetworkManager own the tunnels. The decisions of the app are a Verus-verified library; the
window, the worker thread and the file and process work around it are ordinary Rust.

## Layout

- `src/` — the verified library.
  - `text`, `paths`, `ids`: text operations, `std::path`-style path arithmetic on text, and
    UUIDs through the `uuid` crate.
  - `nmcli`, `commands`: reading what `nmcli` prints and the exact commands the app runs.
  - `profile`: the profile library, name and login rules, selection.
  - `bundle`: turning an OpenVPN configuration into a self-contained bundle (refused
    directives, copied files, rewritten references, server and protocol summary).
  - `disconnect`, `cleanup`, `session`, `monitor`: deactivating one connection and confirming
    it, releasing every library connection, connecting, and watching the connection.
  - `worker`: the events the background worker sends after a request and after each look
    at the connection.
  - `flows`: importing, saving a login and removing a profile, step by step, with rollback.
  - `screen`, `display`: the window's state, how it answers clicks and worker events, and
    what it shows.
- `tests/` — tests of the library, run with the real outside crates.
- `app/` — the program: GPUI window, worker thread, `nmcli` processes, files on disk.

## Checking

The library is verified with Verus; the tests run with `cargo test`.
