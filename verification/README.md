# qubes-meminfo-writer-ng

A daemon for Qubes guests that samples RAM and swap usage and publishes the used
amount in xenstore at `memory/meminfo`, so that qmemman in dom0 can balloon memory.

- `src/` is the verified library: glob matching, the swap-weight rules and their
  cache, settings and their repair, `/proc/swaps` parsing, used-memory arithmetic,
  the update heuristic, command-line parsing, and the decisions of the sampling loop.
  Swap weights are binary64 numbers held as bit patterns; scaling by them is exact
  integer arithmetic with binary64 rounding.
- `app/` is the program around it: reading files and the machine, printing, TOML, and
  libxenstore.
- `tests/` exercises the library from outside.
