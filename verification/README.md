# corona

The logic of the corona desktop shell, verified with Verus.

- `src/` is the library. Every function there carries a contract that Verus
  proves; calls into outside crates go through small trusted wrappers whose
  doc comments say what is assumed of them.
  - `text`: string helpers with contracts (trimming, splitting, parsing
    integers, replacing, ordering).
  - `icons`: desktop-entry keys, the name-to-icon table, GTK icon-theme
    settings, and memoized icon lookup.
  - `audio`, `audio_state`: PipeWire nodes and properties, the audio graph
    (nodes, defaults, stream pins), the reports sent when it moves, and the
    commands the UI asks of it.
  - `compositor`, `hyprland`: compositor state, Hyprland IPC requests, the
    records its JSON replies hold, and what each event line asks to fetch.
  - `events`, `notifications`, `clock`: what the listeners report, the
    notification server's ids and timeouts, the clock tick.
  - `manifest`: plugin capability grants and path expansion.
  - `script`, `platform`, `panel`: script read tracking, window hand-out,
    panel toggling.
- `app/` is the process around it: sockets, D-Bus, PipeWire, files, serde.
- `tests/` runs the library on concrete values.
