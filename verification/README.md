# anime-notif

A background service that polls anime release feeds, decides which
release of each new episode to surface (waiting a while for the preferred
resolution), notifies the desktop, and hands releases off for download.

## Layout

- `src/` — the library, verified with Verus: the source-plugin schema and
  its jq-style paths, release extraction, the config model and its
  validation, the resolution-wait decisions, download planning (command
  words are split before the link is substituted, never through a shell),
  notifications and their actions, the command line grammar, tables, and
  the small file-naming rules (cache paths, log files, control token).
- `app/` — the program around it: the TOML files, the database, HTTP,
  processes, desktop notifications, the control server and the daemon
  loop. Every decision it acts on is made by a library function, down to
  the defaults the TOML files fall back on and the order of the steps an
  action or a resolved episode takes; `app/` performs the I/O between.
- `tests/` — tests of the library.

Outside crates are reached from the library only through small trusted
wrappers whose contracts say what the crates' documentation promises
(regex matching, SHA-256, shell-word splitting, URL parsing, form
encoding, tilde and environment expansion, JSON parsing, platform
directories, random tokens).
