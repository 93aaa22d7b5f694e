# diskonaut

A terminal disk-space navigator: it scans a folder, shows its entries as
tiles sized by the space they take, lets the user move between tiles, enter
folders and delete entries, and keeps count of the space freed.

## Layout

- `src/` is the verified library (Verus):
  - `files.rs`, `tree_laws.rs`: the scanned folder tree, its picture as a
    mathematical model, and the laws that adding, looking up and deleting
    entries obey: sizes stay exact; descendant counts stay exact when
    entries are added and when a file is removed (removing a folder takes
    off its descendants but not the folder itself); entries off the path
    of a change stay as they were.
  - `file_tree.rs`: the tree together with the folder being shown.
  - `listing.rs`: a folder's entries, largest first, with their shares.
  - `board.rs`: the tiles of the current folder, selection and movement.
  - `controls.rs`, `app_state.rs`: keys, modes and the application state;
    each instruction or key press yields the new state and what is left to
    draw, publish or delete.
  - `symbols.rs`, `grid.rs`, `tile_text.rs`: merging of box-drawing symbols
    and drawing of tiles into a `tui` buffer. A buffer is seen through what
    each cell shows and how it is painted; what `tui` writes for a string
    is named, not restated.
  - `title.rs`, `bottom_line.rs`, `modals.rs`, `display.rs`: the title line,
    the bottom line, the prompts and the whole screen.
  - `truncate.rs`: cutting text to a number of terminal columns.
- `app/` is the program around it: terminal set-up, the threads that scan
  the disk and read the keyboard, the deletion on disk, and the floating
  point parts (laying tiles out as a treemap, writing sizes in K, M and G).
- `tests/` runs the library on concrete values.
