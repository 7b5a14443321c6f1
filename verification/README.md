# tui2

A terminal launcher for other terminal programs: it finds well-known TUI
programs installed on the computer, lets the user add launchers of their own,
and lists favorites first, then the most used, then by name.

## Layout

- `src/` — the verified library (Verus):
  - `text.rs`: whitespace, trimming, line splitting, decimal numbers, the
    program name of a command;
  - `launcher.rs`: launcher entries, applying saved usage, merging custom and
    detected entries, favorites and launch counting;
  - `stats.rs`: the usage-stats table and its file format. The table is a
    list of rows kept strictly sorted by command rather than a `HashMap`:
    vstd gives no usable specification of a `HashMap` keyed by `String`, and
    the stats file is written in command order anyway, so the sorted rows are
    both the map (through `StatsTable::view`) and the order of the file;
  - `config.rs`: the file of custom launchers and the config paths;
  - `priority.rs`: the (stable) order of the list;
  - `catalog.rs`: the known programs and which of them are offered;
  - `labels.rs`: the texts shown for entries and form fields;
  - `app.rs`: the screen as a state machine of key presses and actions.
- `app/` — the program around it: terminal setup, drawing with ratatui, key
  events from crossterm, files, environment and running commands.
- `tests/` — tests of the library on concrete values.

## Files

Custom launchers: `$XDG_CONFIG_HOME/tui2/launchers.txt` (else
`~/.config/tui2/launchers.txt`), one `name<TAB>command<TAB>description` line
each. Usage: `stats.txt` beside it, one `command<TAB>launch_count<TAB>favorite`
line per program.
