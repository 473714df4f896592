# basket

`basket` records the commands you type: it imports your shell history into a
SQLite database, follows a command log written by a shell hook, and shows an
overview in the terminal — the most used commands, those that fail most
often, the ones you mistype, your latest commands, and commands that look
like intrusion attempts.

The library under `src/` holds the program's logic, verified with Verus:

- `text`, `decimal`, `order`: character-level text, decimal integers, and the
  stable ordering used for every sorted table;
- `storage`: the history records and their stored status text, the shell
  history formats and what an import stores, the settings file's location;
- `analysis`: the overview tables;
- `ids`: intrusion detection (rules, command sequences, allowlist and
  suppression, ordering of findings);
- `ui`: table rows, filtering and sorting, the layout of the screens, and the
  interface's state machine (`ui::state`);
- `runtime`: following the command log, and the shell-hook installation plan;
- `startup`: the start-up sequence.

`app/` is the program around it: the database (rusqlite), files, the file
watcher (notify), JSON (serde), and drawing (ratatui, crossterm,
tui-piechart).  It performs what the library decides; the clock is read
through the library (`timefmt::unix_now`).
