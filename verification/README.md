# MFlash Studio

An editor for `.mflash` flashcard decks: a zip package holding `deck.json` (format
version 3) and the deck's media, or a raw JSON deck.

The editing logic is a library verified with Verus (`src/`); the desktop window around it
(egui, file dialogs, zip and image I/O, speech and sound threads) is ordinary Rust (`app/`).

## Library modules

- `studio` — the editor state, undo/redo history, selection, workspaces and their switching,
  taking the schema text into the deck and back.
- `models`, `config` — the deck model and the configuration the library decides with.
- `edit`, `visual`, `cover`, `assets`, `browse`, `selection` — card and deck edits of the
  menus and workspaces, each recorded for undo where the editor records it.
- `json` — the schema text as a JSON document (read and written by serde_json), and the
  edits the visual editor writes into the selected card's object.
- `json_sync` — those edits applied to the schema text itself: read as JSON, edited, and
  written back as indented JSON.
- `search`, `find`, `text_tools`, `menus` — the schema editor's find bar (literal and regular
  expression search, replace), text tools and menu reports.
- `input` — keyboard shortcut parsing, the bindings, and what a pressed shortcut does.
- `archive`, `save` — package paths, moving media files into a package, and the decisions of
  saving.
- `audio`, `sfx` — language tags for speech, and the front ends of the speech and sound
  engines.
- `text` — strings as character sequences: trimming, searching, decimal numbers.

Each public function states its result in its `ensures`; the laws that relate several
functions (undo and redo, moving cards back and forth, stepping through find matches and
workspaces, reading back the tags field) are public proof functions next to them.

## Layout

- `src/` — the verified library.
- `tests/` — tests of the library.
- `app/` — the window: `main.rs` starts it; `window.rs` holds the state, saving and
  shortcuts; `menubar.rs`, `workspaces.rs`, `visual_editor.rs`, `settings_window.rs` draw it;
  `package.rs` reads and writes packages; `schema.rs` converts decks to and from the schema
  formats; `serde_models.rs` and `config_file.rs` hold the serde forms of the library's types.
