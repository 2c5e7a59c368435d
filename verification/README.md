# browser

The browser client of a tank game, as a verified library and a thin program.

- `src/` (verified with Verus)
  - `keys.rs`: key events, key codes, and the key map from key names to codes.
  - `number.rs`: the decimal `i32` syntax that page attributes are read with.
  - `game_pad.rs`: the on-screen direction cross: which buttons a touch fires,
    and the layout read from the page.
  - `socket.rs`: which socket frames reach the game.
  - `context.rs`: `JSGameContext`, the queues the game drains each frame and
    the keyboard and pad state behind them, with its model `ContextView`.
  - `laws.rs`: properties proved of the model (held keys repeat silently,
    release undoes press, events are only appended, the pad never re-sends a
    held direction, well-formedness is kept).
- `tests/`: runtime tests of the library.
- `app/`: the stdweb program that wires page events into the library and
  draws on the canvas.
