# ibkr_dx

The decisions of a trading client, written in Verus: executable Rust whose
behaviour is stated in contracts and proved.

- `src/protocol` reads and writes what the venue sends: name-server messages,
  the parameters of its option model, regulatory snapshots, dates.
- `src/types` holds orders, their shapes and what they state.
- `src/engine/order_builder` turns orders, changes and withdrawals into the
  fields of messages, and says what became of each.
- `src/engine/intake` takes what callers ask about orders: numbers, contracts,
  families that go out together, withdrawals, exercises.
- `src/engine/market` takes requests for market data and withdraws them.
- `src/engine/hmds` matches the data service's replies to the queries they
  answer.
- `src/options` decides what an option calculation works from.

Public proof functions state what holds across several operations.

`app` is ordinary Rust around the library: sockets, the environment, the
logger, floating point, and the loop that asks the library what comes next.
