# vibe_extract

The logic of a desktop UI extractor: pick an element of any running app, find the
strategy that captures it best, and write it out as TOON and HTML.

- `src/` is the library, verified with Verus. It holds no I/O. Where it needs the screen,
  another process or a network, it says what it wants next and takes the answer:
  - `ax_macos` walks accessibility trees, finds the element under a point, and tells a
    real element from an empty container;
  - `cdp` builds the commands for a page's debug port and reads the replies;
  - `dispatcher` is the ladder of strategies and the merging of several captures;
  - `framework_detect` tells what an app is built with, from its bundle and what its
    executable links;
  - `native_format` writes TOON and HTML;
  - `screenshot` places crops and reads colours;
  - `session`, `click`, `hover`, `freeze`, `relaunch` and `shell` are the parts of pick
    mode, and `flow` its runs: a pick, a click, a start, an export, a relaunch, a tick of
    the hover;
  - `mcp` is what the tool server answers;
  - `text`, `json`, `encoding` and `double` are what the others are built from.
- `tests/` runs the library, with the outside crates it calls.
- `app/` is the desktop app around it: the accessibility interface, the debug-port
  connection, the tool server and the windows.

Coordinates are whole numbers of 1/64 point; `app/` converts at the edge.
