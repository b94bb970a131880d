# lostower

A terminal e-book reader. The crate under `src/` is the verified library; `app/` is
the terminal program around it.

- `book/` — the content model (full text, chapters and their byte offsets, paging),
  plain-text books (decoding in a chosen charset) and EPUB books (container and
  package documents, spine order, HTML chapters).
- `tui/ui/reader.rs` — the reading position: paging through chapters, search with
  navigation between matches, and which stretches of a line are highlighted.
- `tui/keys.rs` — what each key does in each view, as a step from state and key to
  new state and an action (read a book file, save the settings) for the program.
- `tui/ui/`, `tui/components/` — list selections, bookmarks, help text, status line
  and scrollbar extent.
- `app/` (under `src/`) — the application state, settings and bookmarks.
- `utils/` — text primitives (lines, pages, search, joining) and file-name helpers.

`app/` holds `main`, the event thread, drawing with ratatui, the settings file and
directory listing.
