# game_in_rust

The logic of a small 3D action game, written in Verus and proved against its
contracts: entity states and combo attacks, enemy AI decisions, input key
state, action and level file parsing, joint-tree layout of skeletons, grid
meshes, polygon bookkeeping and resource-name handling.

- `src/` is the verified library. Public functions state what they return
  or change over spec functions and views; the exception is the frame
  timer, whose readings come from the clock and are not stated. The laws
  that span several functions are public proof functions (`lemma_*`).
- `tests/` runs the library on concrete values.
- `app/` is the program around it: the SDL window and input, OpenGL calls,
  files on disk, console commands, and the floating-point motion of the
  entities, none of which the library holds.
