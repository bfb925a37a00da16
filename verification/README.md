# connect_four

Connect Four with computer players, written in Verus.

- `src/` is the library: the board and its
  cells, positions and directions, pieces, moves and their results, game
  configurations and variants, the game state and the engine that applies
  moves, move validation, and the search players (minimax, negamax,
  alpha-beta, endgame solving, Monte Carlo tree search, transposition
  tables, Zobrist hashing, threat and pattern detection, random openings).
  Contracts are stated over views of the types (`Board` is a grid of cells
  given by `Seq<Seq<Cell>>`, tables are sequences of slots, and so on) and
  the laws that relate several functions are public proof functions.
  Everything in it is verified except a few small trusted functions, marked
  `#[verifier::external_body]`, that call std or the outside crates (the
  clock, random numbers, hashing, UUIDs, text parsing and case mapping);
  each states in its doc comment what it claims.
- `app/` is the terminal program and the parts that verification does not
  cover: drawing with ratatui, the asynchronous controller, floating-point
  scores and weights (heuristic evaluation, neural network, time budgets,
  upper confidence bounds), threads, and files.
- `tests/` runs the library on concrete games.
