# qc

A backtest orchestrator for QuantConnect cloud nodes, with its decisions
verified in Verus.

- `src/` — the verified library: job claiming (`claim_scan`), the warm pool
  and its filler decisions (`pool`, `warm`), retry policy and error
  classification (`retry`), request authentication (`auth`), transport rules
  (`transport`), configuration rules (`config`), log retention (`retention`),
  the project-pool commands
  (`projects`, `created_sort`), the command line model (`cli`) and the API
  response models (`models`).
- `app/` — the program around it: HTTP client and endpoints, SQLite access,
  logging, the command-line parser and the command handlers.
- `tests/` — tests of the library on concrete values.
