# Port Watch

Port Watch lists the processes that listen on network ports, tells the
operating system's own services apart from the user's development servers,
and offers actions on them (open, copy the URL, reveal the folder, open a
terminal or an editor, stop the process, move its folder to the trash or
delete it) behind safety guards.

## Layout

- `src/` is the library, verified with Verus. Every function there carries
  a contract, and the properties that span several functions are stated and
  proved as `law_*` proof functions.
  - `text.rs`: character-level string operations (trimming, searching,
    splitting, number parsing and printing) with their specifications.
  - `scanner.rs`, `classifier.rs`: what a scan reports and who a process
    belongs to.
  - `platform/`: the per-platform rules. `shared.rs` parses socket
    addresses, command lines and process names; `linux/`, `macos/` and
    `windows/` read the output of `ss` and `/proc`, `lsof` and `ps`, and
    PowerShell, classify processes and guard deletions;
    `path_validation.rs` holds the deletion rules all platforms share;
    `shell.rs` the steps of stopping a process (the identity check,
    `TERM`, the grace period, and `KILL` only while the pid still runs the
    chosen process; `taskkill` on Windows); `linux/shell.rs` the order in
    which terminal programs are tried.
  - `home.rs`: finding a process's project root.
  - `poller.rs`: the background scanner's state and decisions.
  - `tray.rs`: the tray menu's contents and actions.
  - `cli.rs`, `cli_install.rs`: the command line tool and its installation.
  - `commands.rs`, `guards.rs`, `app_settings.rs`: the checks behind the
    UI's commands, and the user's settings.
- `tests/`: tests of the library on concrete values.
- `app/`: the program around the library: it runs the system tools, reads
  the file system, runs the poller's threads and carries out the actions.
  The library decides; the program performs.
