# diskrush

A terminal disk benchmark: sequential and random (4 KiB) reads and writes on
a chosen drive, with live progress, a history of past runs and a headless
mode that prints a table or JSON.

The program is split in two:

- `src/` is the library, verified with Verus. It holds the decisions: the
  plan of a suite (`bench`), how each test splits its work into blocks and
  which blocks the random tests visit (`engine`), the interactive screen as a
  state machine driven by keys and benchmark messages (`app`), the reading of
  the mount table (`drives`), the history and saved settings (`history`),
  the screen layout in whole cells (`layout`), the command line (`cli`),
  the headless run (`headless`), and decimal text (`text`).
- `app/` is the program around it: the terminal (ratatui, crossterm), the
  worker thread, direct file I/O, JSON files (serde), and everything that
  is measured or drawn in floating point.
