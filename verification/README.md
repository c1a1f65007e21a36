# openstratcore

A deterministic, seedable engine for real-time land-warfare games on a hex board, verified with
Verus.

- `src/` is the library. Every operation of `Engine` says in its contract which state it leads to:
  the state of a match is a function of the scenario, the rules, the decision tables, the seed and
  the orders. `engine/laws*.rs` states what holds of every match, such as what a side cannot learn
  of the other and what a refused order does not change.
- `tests/` plays matches and looks up tables.
- `app/` reads and writes JSON, turns seconds and speeds into whole ticks, and offers the engine to
  Python and to the browser.

The rules file and the decision tables are data. A match takes the rules as whole numbers: durations
in ticks of a hundredth of a second, paces in ticks per hex, and the weights of calibrated tables as
cutoffs among a million draws.
