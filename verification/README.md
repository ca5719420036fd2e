# pomme_client

The client of a block game: its menus and in-game interface, and the planning of
what the renderer draws. The logic is a library verified with Verus.

- `src/` is the library. Every function states what it returns or changes, and
  Verus proves it. What holds across functions is stated as public proof
  functions beside them, such as that a server list reads back as it was saved,
  or that no two sprites of an atlas overlap.
- `src/menu/` is the menu: a state, an input and what the cursor is over give the
  next state and what is to be done.
- `tests/` runs the library on concrete values.
- `app/` is what surrounds the library: files, the network, the clipboard,
  geometry in floating point, and the graphics device.

Times are milliseconds of a clock that the caller keeps, and lengths are whole
numbers of a unit that each module names.
