# eth_node

Two parts of an Ethereum node, written in Rust and verified with Verus.

The fee history cache answers fee history requests from memory. It keeps the entries of a bounded
number of recent blocks, with the rewards that their transactions paid at a range of percentiles,
knows which blocks are missing within its bounds, and decides which of them to fetch.

The components builder captures how each component of a node is built, and runs the construction
stage by stage.

- `src/` is the library. Every function states in its contract what it returns; what holds over
  several calls is stated by the proof functions whose names start with `law_`.
- `tests/` runs the library on concrete values.
- `app/` is the asynchronous shell: locks, streams, floating point numbers and serialization.

Percentiles are floating point numbers, so the library works on the gas positions that they stand
for, and ratios stay pairs of integers. The shell converts.

The library calls `alloy-eips` for blob gas arithmetic and `alloy-consensus` for the tip that a
transaction pays. Each call stands in a small function with an assumed contract, next to the code
that relies on it.
