# Breakout

A Breakout game (a wall of bricks, a paddle, a ball) whose rules are written in
Verus and proved. Positions and speeds are s32.32 fixed-point numbers, so every
frame is exact and repeatable; sine, cosine and square roots come from the
`cordic` crate, the arithmetic from the `fixed` crate.

- `src/` — the game: the state, the player's moves, one frame of play, the
  picture's gauge and overlay, a Q48.16 number type with a square root and a
  sine table, and the laws every game keeps (`src/laws.rs`).
- `app/` — the browser side: canvas, input events, animation loop, drawing.
- `tests/` — tests of the library on concrete games.
