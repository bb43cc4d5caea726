# brewinget

The logic of a small GUI front end for `winget` (and `brew`), written in
Verus and proved against its contracts.

- `src/` — the verified library:
  - `text`: character classes, trimming, `lines`, word splitting, substring
    search, UTF-8 byte offsets, decimal formatting;
  - `table`: the fixed-width tables of `winget search / list / upgrade`;
  - `detect`: ANSI-escape removal, the noise filter for log lines, and the
    classification of failed runs (running app, network error);
  - `op`: one package operation: a single attempt, or (install, update) a
    silent attempt with its interactive fallback;
  - `queue`: the skip / abort control and the "update all" queue as a state
    machine;
  - `winget`, `brew`, `package`: command lines and what their output becomes;
  - `schedule`: the schedule and its Task Scheduler scripts;
  - `prefs`: file locations and the auto-update preferences JSON;
  - `order`: string order and sorting;
  - `headless`: the unattended auto-update run and its time-stamped log;
  - `mutex`: the UTF-16 name of the window mutex.
- `tests/` — tests on concrete values.
- `app/` — the Tauri program: processes, threads, files, events.
