# tetris

A terminal Tetris whose game logic is verified with Verus.

The library in `src/` holds everything that decides something: geometry and
pieces, the board and its row clearing, the rules (seven-bag randomizer,
scoring, levels, gravity, wall kicks), the engine that applies actions and
elapsed time, the panels that paint a snapshot onto a canvas, the double
buffer that works out what a terminal must redraw, the meaning of key events,
command-line parsing and the game loop. Each public function carries a
contract, and `src/game/laws.rs` states what every move and every tick keep
true of a game: the falling piece never leaves play, totals never drop, the
ghost shows where a hard drop lands, pausing twice changes nothing.

`app/main.rs` is the terminal program around it: it reads key events and the
terminal size with crossterm, hands the library plain values, and sends the
drawing instructions the library computes.

Layout:

- `src/geometry`, `src/piece`, `src/board`: coordinates, tetrominoes, the stack.
- `src/rules`: chance, reward and pace behind one trait each.
- `src/game`: the engine, its snapshot, clocks, and the laws of play.
- `src/render`: canvases, panels and the screen layout.
- `src/input`: keys, key maps and scripted input.
- `src/app`: start-up options and the game loop.
- `tests/`: scenarios and examples, run against the compiled library.
