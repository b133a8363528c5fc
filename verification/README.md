# workshop

A terminal tool for working through programming workshops: pick a workshop, a spoken and a
programming language, read each lesson (markdown with collapsible hints), and have your
solution checked by the workshop's scripts.

The crate is written in Verus. `src/` is the verified library; `app/` is the program around
it: the terminal, files, processes, logging and configuration on disk.

## Layout of `src/`

- `languages/` — spoken and programming language codes, their names, parsing and ordering.
- `models/` — workshops and lessons as read from a workshop directory: which languages they
  offer, which texts to load, lesson status.
- `catalog.rs` — the set of installed workshops, filtered by language, and the languages
  they offer together.
- `engine.rs` — the engine's state machine: requests from the user interface, the stack of
  states, and the message each state is shown with.
- `front.rs`, `app.rs`, `ui.rs` — which screen is shown, where keys and events go, and what
  each event asks of the engine, the disk or the processes.
- `workshops.rs`, `lessons.rs`, `lesson_screen.rs`, `dialogs.rs`, `logscreen.rs` — the
  screens' states and how keys change them.
- `markdown.rs`, `render.rs`, `highlight.rs`, `lessonbox.rs` — lesson text as blocks, their
  lines at a width, syntax highlighting, hints and the highlighted line.
- `scrolltext.rs`, `scrolllog.rs`, `statusbar.rs`, `sorted.rs` — scrolling, the log's
  lines, the status bar and a small ordered map.
- `command.rs`, `python.rs`, `config.rs`, `settings.rs` — running checks, finding a Python
  interpreter, and the configuration.
- `describe.rs`, `logline.rs` — the log's lines for engine messages and for what the
  program logs.
- `text.rs` — string helpers.

Each public function states its result in `ensures`; laws that span several functions are
public proof functions (`lemma_*`).
