# pdf_ui

The editing and viewing logic of a local-first PDF editor, verified with
Verus. The editor's window (gpui) and its PDF worker sit around this library;
what they decide is decided here, from plain values, with contracts that say
exactly what each function returns.

## Layout

- `src/history.rs` — the undo/redo stack of queued edits, with the laws that
  undo and redo walk one stack and that a new edit discards the redo branch.
- `src/schedule.rs` — which pages to rasterise, preview or read the text of,
  and in what order, around the viewport; and the background pass.
- `src/residency.rs` — which rasters to free when memory runs over budget.
- `src/selection.rs` — text selection across pages and the joining of the
  selected runs into text.
- `src/raster.rs` — page rasters from the worker's BGRA bytes to RGBA images
  (through the image crate), given exactly when the bytes cover the size.
- `src/search.rs` — the character ranges a query matches in a page's text.
- `src/form_choice.rs`, `src/text.rs` — labels and values of choice fields,
  multi-select values separated by U+001F.
- `src/form_validation.rs`, `src/calendar.rs` — date and insurance-number
  validation of form fields (dates through chrono).
- `src/session.rs`, `src/commands.rs`, `src/navigation.rs` — the editor's
  bookkeeping of the open document, Escape handling, tool switching, form
  buttons, page navigation.
- `src/status.rs`, `src/edits.rs`, `src/document_io.rs`, `src/assets.rs`,
  `src/model.rs` — status texts, edit labels, file names, the icon asset
  table and the shared types.
- `app/` — the shell around the library: request/update types of the worker,
  gpui asset source and theme, floating-point page geometry and gestures, and
  the adapters from the worker's types to the library's.
- `tests/` — tests run against the compiled library.
