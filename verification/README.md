# LightSpeed

The shell of a fast code editor, with its logic proved in Verus.

The library decides everything that does not need a screen, a disk or a
process: what a key or a click means, which panel has the keyboard, what the
sidebar, the palette, the menus and the status bar show, which surfaces a frame
is composed of, how a message to a language server is framed and read, and what
a settled dependency graph looks like on disk.  Each of these is a function of
plain values with a contract, and the properties that span several of them are
proved beside them.  The program around the library opens the window, draws, and
carries out what the library asks for.

## Layout

- `src/` — the verified library.
  - `text`, `clock`: characters, padding and decimals; instants and the caret.
  - `big`, `floats`, `numbers`: whole numbers of any size, floating-point values
    as indices, and how they are read from decimals and written as them.
  - `json`, `framing`, `lsp`: values, `Content-Length` frames, and what is said
    to a language server.
  - `keymap`, `menu`, `palette`, `focus`, `settings`, `terminal`, `lists`,
    `sidebar`, `status`, `clusters`, `markdown`, `icons`, `rich`: one surface or
    concern each.
  - `shell`, `requests`, `keys`, `pointer`, `lifecycle`: the shell's state, and
    how each event moves it.  A step returns the actions to carry out.
  - `redraw`, `wording`, `compose`, `frame`, `regions`, `quads`: what a frame is
    made of, and what it leaves to do.
  - `depgraph`, `depcache`: the dependency view and its cache.
  - `devpanel`, `resources`, `overlay`: the diagnostics panels.
  - `args`: the command line.
- `tests/` — the library exercised on concrete values.
- `app/` — the program: window, GPU, fonts, files and processes.  Pixel geometry
  and the force simulation are here too, since they are floating point.

## Reading the contracts

Text is a `Seq<char>`, and a type that holds text has a view that holds such
sequences instead.  The shell's state `LightSpeed` is viewed as `Shell`; every
event handler equates the new view and the returned actions with a spec function
of the old view and the event.  Public proof functions state what follows for
all inputs.
