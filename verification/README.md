# ts_engine

A verified game engine for Twilight Struggle: the map and its countries, the cards and their
events, the deck, the state of a game with its stack of decisions, the encoding of decisions
for an agent, and a reader for game records. The library under `src/` is checked by Verus:
each public function carries a contract, and the laws of the game that span functions stand
as proof functions.

- `src/country.rs`, `src/country/scoring.rs`: the map, adjacency, regions and their scoring.
- `src/card.rs`, `src/card/`: cards, the deck, events, and what events do to the board and
  to the stack of decisions.
- `src/state.rs`, `src/state/`: the state of a game, its randomness, and how an answer is
  resolved.
- `src/action.rs`, `src/action/`: decisions and how one step follows another.
- `src/tensor.rs`, `src/tensor/`: the encoding of choices as output positions.
- `src/game.rs`: the game loop, from one answer to the next decision.
- `src/record.rs`: game records read from bytes.
- `app/`: the agents and replays around the library.
