# lonecli

Verified bookkeeping and analysis for a Klondike solitaire solver.

- `src/tracking.rs`: the hooks a search reports to (`SearchStatistics`) and
  the signal that stops it (`TerminateSignal`).
- `src/search_stats.rs`: search statistics (visits, deepest level, foundation
  and face-down extremes, progress through the first levels, branching of new
  states), modelled as a
  sequence of events, with laws about any sequence of events.
- `src/deal.rs`: the opening layout of a deal and the features read off
  the shuffled deck before any search.
- `src/moves.rs`: move-kind breakdown of a solution and its compact notation.
- `src/session.rs`: running totals over a series of solved deals.
- `src/play.rs`: reading a player's move, random playouts, seed names.
- `src/confidence.rs`: the samples behind success-rate intervals.
- `app/`: the command-line program: argument parsing, printing, signals,
  random choices, and the game engine and search it drives.
