# xvenue

Decisions of a strategy that trades the spread between two venues, Extended and Lighter,
verified with Verus.

`src/` is the library. It has no clock, no I/O and no floating point: every function takes
what was read and returns what is to be done. Floating point numbers pass through it as bit
patterns (`double`), which it compares but does not compute with; amounts of money are
decimals (`decimal`), computed by `rust_decimal` behind wrappers.

- `signal`, `spread`, `sizing`, `entry_filter`: when to enter and exit, and how much
- `state`: the position machine and its invariants
- `entry_dispatch`, `exit_dispatch`, `emergency_handlers`, `emergency_flatten`: the order of
  steps from a decision to a closed position, one function per step
- `live`, `live_tick`, `live_pnl`, `live_exec`, `live_status`, `maker`: a tick of the live loop,
  its counters, its results and its gauges
- `bt`, `bt_grid`: replays and grids of replays
- `config`, `status`, `data_dump`, `s3_mirror`: configuration, status file, market data dump,
  names in a bucket
- `decimal`, `rounding`, `double`, `text`, `time`: numbers, strings and milliseconds

Proof functions whose names begin with `law_` state what holds across functions.

`app/` is the rest: venues, files, the event loop, serialisation and floating point.
`tests/` runs the library on concrete values.
