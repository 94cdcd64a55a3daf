# hopes

A keyboard-driven task tracker and Kanban board for the terminal, whose
workspace logic is verified with Verus.

## Layout

- `src/` — the verified library:
  - `app.rs`: the workspace state (`App`), its plain-value view (`AppView`)
    and the invariant every operation keeps (`wf`);
  - `navigation.rs`, `editing.rs`, `forms.rs`: moving around, changing tasks
    (with one level of undo), the task form and the filters;
  - `keys.rs`: the key map and `App::handle_key`, which drives everything
    from one key press;
  - `filter.rs`, `tags.rs`, `cache.rs`: which tasks are shown and in what
    order, the tag table and the counts;
  - `textedit.rs`: vim-style motions and edits on a text buffer;
  - `display.rs`: shortened texts, the progress bar, selection runs;
  - `sync/`: reading git's output and the debounced sync worker;
  - `audit.rs`, `config.rs`, `event.rs`, `models/`, `chars.rs`.
- `tests/` — tests of the library.
- `app/` — the terminal program: drawing with ratatui, reading keys with
  crossterm, the JSON task file, `config.toml`, and running git.

Verify with `verus` on `src/lib.rs`; the contracts are stated over the
views (`@`) of the types.
