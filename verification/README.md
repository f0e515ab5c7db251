# hprof_views

View-state logic of a terminal explorer for Java heap dumps (`.hprof`):
the thread list with its case-insensitive filter, the stack-frame tree with
lazily expanded objects and paged collections, the favorites panel of pinned
snapshots, the help panel and the status line.

Every function in `src/` is verified with Verus against a contract over
mathematical models (`Seq`, `Set`, `Map` and spec functions), except two
trusted wrappers on std in `src/text.rs` (`String::push` and
`str::to_lowercase`), whose contracts Verus takes as given. The rows the
views draw are plain data (`Vec<Vec<Span>>`, each span a text and a `Tone`).

Layout:

- `src/engine.rs` – plain data of a heap dump as the views read it.
- `src/text.rs` – character sequences, substring search, number rendering.
- `src/cursor.rs` – list selection and a cursor over stable ids.
- `src/keyset.rs` – a small set keyed by value, used for collapse/hide state.
- `src/thread_list.rs` – thread list state and its panel rows.
- `src/stack_view/` – navigation paths, collection chunks, expansion
  registry, the flattened row order and the stack panel state; `rows_match.rs`
  relates the drawn rows to the cursor's flat order.
- `src/tree_render.rs` – the variable tree walk shared by the stack and
  favorites panels, with its row bookkeeping.
- `src/favorites.rs`, `src/favorites_panel.rs` – pinned snapshots and the
  favorites panel state and rows.
- `src/help_bar.rs`, `src/keymap.rs`, `src/status_bar.rs`, `src/rows.rs` –
  the help panel, key bindings, status line and styled rows.
- `src/tree_shape.rs` – the row shapes of a tree walk, and why they do not
  depend on whether object ids are shown.
- `app/` – terminal widgets (ratatui) that draw the rows in a theme.
- `tests/` – tests of the library on concrete values.
