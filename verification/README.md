# remote_play

A launcher for games played through Steam Remote Play. It reads a list of
games from `games.toml` (or a file given with `-conf=PATH`, in TOML when its
name ends in `.toml` and in a line-based text format otherwise) and lets the
user start one, from a terminal interface (the default) or a plain
command line (`--cli`).

Layout:

- `src/` is the verified library (Verus):
  - `text.rs`: trimming, splitting, line breaking, decimal numbers, padding;
  - `game.rs`: the description of a game;
  - `loader.rs`: the text format, the lookup in a parsed TOML table, the
    choice of configuration file and its messages;
  - `cli.rs`: the listing and the reading of commands at the prompt;
  - `tui.rs`: the state machine of the terminal interface and the text of
    each of its screens;
  - `gui.rs`: the state behind the graphical interface.
- `app/` is the program around it: command line, file reading, TOML
  deserialisation, starting processes, and drawing with ratatui.
- `tests/` runs the library on concrete values.

The text format has one game per line: the command (words separated by
spaces, double quotes grouping words), optionally followed by `|` and the
name to show. Blank lines and lines starting with `#` are skipped.
