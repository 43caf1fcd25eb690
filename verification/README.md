# backtest_node

The decisions of a backtest node, verified with Verus.

A backtest node connects data catalogs with backtest engines. It checks run configurations,
sets up an engine for each, and runs it: once over all data, or in chunks that are read as
the engine proceeds. This crate holds what such a node decides. Catalogs and engines belong
to the platform that embeds it.

## How it is used

`BacktestNode::build` and `BacktestNode::run` advance a state. Each call takes the reply to
the last action and returns the next action; the embedding application performs it and calls
again. `app/` holds the two loops that do this, over traits that the platform implements.

## Layout

- `src/` is the verified library.
  - `node`, `setup`, `venue`: the node, and how an engine is set up.
  - `validate`: which configurations are accepted, and why others are not.
  - `catalog`: which catalog is opened, and what it is queried for.
  - `run`, `oneshot`, `streaming`: how a run proceeds.
  - `chunk`, `stream`, `ordering`: how a stream is cut, fed and watched.
  - `stream_laws`, `order_laws`: what holds of every stream, and what its two kinds share.
  - `hashed`: the hash tables of `ahash`, and what is believed of them without proof.
- `tests/` runs the library on concrete values.
- `app/` performs what the node asks for.

## What is proved

Every function states exactly what it returns. Beyond that, public proof functions named
`law_...` state what holds of the library as a whole. Among them:

- A configuration is accepted exactly when it is consistent.
- An engine is handed over only with all venues, instruments and settlement prices.
- A stream loses no item and adds none. Where it comes in the order of time, items of one
  time are never parted.
- Where the order of a stream is kept, the runs of the engine follow on each other without
  gap or overlap.
- However a merged stream is shuffled, the engine is never run backward over items that lie
  within the run.
- After a shutdown nothing more is handed to the engine.
- Whatever is asked for, every reply to it is accepted.
- A run never fails for want of an engine, and ends with the failure of its build, if that
  fails.
- A stream in the order of time is fed alike whether its order is kept or restored.

Believed without proof are the contracts in `hashed`, and that the sort of the standard
library is stable (`sort_by_time` in `data`).
