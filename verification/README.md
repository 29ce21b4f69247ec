# aoe_host

The rules of a host for agent sessions, as a verified library: the settings and their profiles, the
command line and the life of the dashboard daemon, the event log, the worker protocol of plugins, the
policy under which plugins may create sessions and send turns, and the sessions themselves.

- `src/` is the library. Every function states in its contract what it returns, and Verus proves it.
  Public proof functions named `law_..` state what holds between several of them. The few calls into
  other crates (`serde`, `serde_json`, `regex`, `sha2`) stand behind small functions whose contracts are
  believed, each with a note on what is claimed of it.
- `tests/` runs the library on concrete values. The event log is run on SQLite.
- `app/` is what touches the outside: options and processes, files, the database, HTTP, and the
  asynchronous work around sessions.

What the database does with a statement is described in `src/events.rs` and not proved.
