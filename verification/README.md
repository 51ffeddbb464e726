# waves_ui

The decisions behind the user interface of a waveform previewer and editor:
what the file list, the editor's regions, the effect graph tester, the
inspection window and the metadata inspector show and do. Each function
states its behaviour as a Verus contract and is proved against it.

## Layout

- `src/` — the verified library.
  - `state.rs` — the previewer's state that the other modules read and change.
  - `list.rs`, `badges.rs`, `comments.rs`, `external.rs` — the file list:
    moving rows and columns, keyboard navigation, selection, type badges,
    the comments cell, prefetching after a frame, clicks on rows; the External
    Data window's sources and import settings.
  - `regions.rs` — editor regions, their undo steps, sidecar and CSV reports.
  - `effect_graph.rs` — port labels, console timestamps, the tester's playback.
  - `port_order.rs`, `graph_canvas.rs` — the effect graph canvas: the order
    of a channel-recombining node's input pins, and what clicks, drags and
    shortcuts on the canvas do.
  - `row_menu.rs` — the list's row context menu.
  - `keymap.rs` — rebinding shortcuts without conflicts.
  - `recording.rs` — the Recording view's source and transport decisions.
  - `settings.rs` — the Settings window's rules (saving, theme, dotfiles,
    list columns).
  - `inspection.rs` — the inspection window's filter, tally and rows.
  - `session.rs` — byte sizes and the session history guard.
  - `metadata.rs`, `metadata_nav.rs`, `metadata_jobs.rs`, `hex_pages.rs`,
    `text_view.rs`, `samples.rs`, `artwork.rs` — the metadata inspector: the
    audio timeline of a file, navigation into the editor, background scans
    and actions, the hex page cache, the text and bit views, sample
    decoding, and embedded artwork (decoded with `image`).
  - `text.rs` — numerals, padding, white space and lines.
- `app/` — the parts that do input and output or floating-point arithmetic:
  file reads and background threads, egui colors and images, waveform
  fractions and times.
- `tests/` — tests of the library on concrete values.
