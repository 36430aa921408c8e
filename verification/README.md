# katana_bench

A benchmark for Katana, a Starknet node: it spawns a player for each of the node's accounts, sends
batches of signed move transactions, waits for the last receipt, and compares the figures with the
run before.

What the benchmark decides is in `src/` and verified with Verus:

- `felt`: field elements by their canonical value.
- `abigen`: the bindings of the contract, with the felts that its arguments are written as.
- `setup`: what is asked of the node before anything is sent, and in which order.
- `tx`: the calldata of `__execute__`, what a version 3 transaction's hash covers, and its signature.
- `prepare`: which sender sends which transaction with which nonce, and the signed transactions.
- `duration`: spans of time in nanoseconds.
- `benchmark`: the course of a run from the first batch to the metrics.
- `result`: the files that a run leaves, and the report.

Functions named `law_..` state what holds across these.

`app/` is the program around the library: the RPC client, the node process, files, clocks and the
floating-point figures.

`Cargo.toml` names `starknet-types-core` though nothing uses it directly: it holds that dependency of
`starknet` to a version whose own dependencies compile.
