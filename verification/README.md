# gnvim

The verified core of Gnvim, a Neovim GUI, written in Verus.

- `src/` is the library, every function of it verified:
  - `value`: the msgpack values Neovim sends, and their mathematical view;
  - `nvim_bridge`: decoding of the redraw and `Gnvim` notifications, each
    decoder specified over the view of its argument; `wellformed` holds the
    executable checks of the decoders' preconditions;
  - `row` and `grid`: the rope-backed rows of a grid and the grid
    operations (line updates, scrolling, resizing, clearing);
  - `color`: colors, highlights and the table of highlight definitions;
  - `common`, `font`, `args`, `input`, `tooltip`: line spacing and popup
    placement, `guifont` parsing, the Neovim command line and UI options,
    keyboard and mouse input strings, and the style filter of the cursor
    tooltip;
  - `widgets` and `cmdline`: the decisions of the tab line, popup menu,
    wildmenu and command line (current tab, selection keys, colors,
    placement, the prompt and the cursor's character offset);
  - `ui_model`: the UI state that the redraw events update, each call a
    stated transition, and `UiModel::apply`, which applies a redraw event;
  - `text`: string helpers (splitting, number parsing and printing);
  - `laws`: properties that relate several operations.
- `app/` is the program: command line parsing, the embedded Neovim process
  and its RPC connection, and the UI model driven by the library.
- `tests/` runs the library on concrete values.
