# uninstaller

A terminal program that lists the packages installed by pacman, Flatpak or
APT, lets the user search and mark some of them, and removes the marked ones.

- `src/` is the library, verified with Verus:
  - `text.rs`: whitespace, splitting, lines, trimming, decimal numbers, joining;
  - `managers/`: the listing and removal commands of each manager and the
    reading of what the listing command prints;
  - `app.rs`: the state of the program and its answers to keys and to the
    events of a running removal;
  - `ui.rs`: what each frame shows.
- `app/main.rs` runs the commands, reads the keys with crossterm and draws
  the frames with ratatui.
- `tests/` exercises the library on concrete values.
