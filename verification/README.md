# cometty

The terminal core of the cometty terminal emulator, written in Verus and
verified: every public function carries a contract over a mathematical
model of its data, and the laws the library promises are stated and
proved as proof functions.

## Layout

- `src/` — the verified library
  - `grid` (with `edit`, `modes`, `style`, `tuning`, `write`): the cell
    grid with scrollback, alternate screen, scroll margins, modes, SGR
    and wide-character bookkeeping; `grid::frame` and `grid::wide` hold
    the laws across edits (saved cursor and alternate-screen round trips,
    wide characters kept whole)
  - `term`: escape-sequence dispatch (printables, C0 controls, CSI, ESC,
    OSC window titles) on top of the grid
  - `input`, `keyboard`: the bytes a key press sends, local shortcuts and
    their precedence
  - `selection`, `search`, `search_panel`, `mouse`: text selection,
    mouse buttons (reporting, drag and double-click word selection) and
    find-bar state
  - `logbuf`, `log_panel`: the in-app log ring and its window
  - `settings`, `tabs`, `title`, `procinfo`, `render`, `theme`, `unicode`,
    `text`: configuration repair, tab bookkeeping and labels, path text,
    renderer decisions, themes, character widths and string helpers
- `tests/` — tests run against the compiled library
- `app/` — the program around it: command line, configuration file,
  logger, pseudo-terminal and the byte parser feeding the terminal core
