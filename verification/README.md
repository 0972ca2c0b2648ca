# cc_bar

A panel applet that charts the context-window usage of several assistant
sessions at once. Each session's status-line record is written to
`$XDG_RUNTIME_DIR/cc-bar/sessions/<session id>.json`; the applet watches that
directory, keeps one entry per session, and draws one small line chart per
session in the panel, with a popup listing the details.

Layout:

- `src/` — the verified library:
  - `text.rs`: decimal rendering, Unicode white space, first word, string equality;
  - `model.rs`: the model family of a display name (`Opus`, `Sonnet`, `Haiku`, `Unknown`);
  - `chart.rs`: chart colours and the SVG line chart of a usage history;
  - `data.rs`: status-line records and the session store (update, remove, stale sweep, listing by model);
  - `clock.rs`: the wall clock;
  - `display.rs`: the popup's text lines;
  - `files.rs`: session file names;
  - `popup.rs`: opening and closing the popup;
  - `laws.rs`: properties that span several operations.
- `app/` — the applet itself: toolkit, file watching, JSON parsing, file I/O.
- `tests/` — tests of the library.

Usage percentages are whole numbers; the dollar cost is carried as the bit
pattern of its `f64` and only formatted in `app/`.

The session store keeps its sessions in a `Vec` with distinct ids (a type
invariant) rather than a `HashMap` keyed by the session id: with `String`
keys, vstd's map specifications give no usable facts about lookups, while a
`Vec` lets every operation be stated and proved exactly, and it gives the
session listing a deterministic order (by model, then by arrival).

The chart frame is drawn in the model's line colour at alpha `40`, and in
white for unknown models.
