# mainnet_observer_backend

Per-block statistics of the Bitcoin blockchain, verified with Verus: counts and sums over the
transactions, inputs, outputs, public keys, signatures and fees of a block, and the choices
behind the daily CSV tables published from them (mining pool groups, pool names, metric
columns, version-bit masks).

## Layout

- `src/` — the verified library.
  - `model.rs`: the block as a node's REST interface delivers it, as plain values.
  - `txinfo.rs`: what the statistics read of a transaction's script analysis.
  - `tx_stats.rs`, `input_stats.rs`, `output_stats.rs`, `script_stats.rs`,
    `feerate_stats.rs`, `block_stats.rs`: each table's statistics, specified over sequences
    (`seqs.rs`) and computed by loops proved against those specifications; each has a
    `fits` check deciding whether its counters and sums can hold the block.
  - `stats.rs`: all statistics of a block, from its raw transactions.
  - `pools.rs`, `tables.rs`, `text.rs`: pool groups and names, metric columns, version bits,
    decimal text and CSV lines.
  - `laws.rs`: properties proved of every block (how the counts partition what they count,
    which counts bound others, the feerate bands, the pool views).
  - `outside.rs`: the trusted items through which `bitcoin`, `rawtx_rs`,
    `bitcoin_pool_identification` and `chrono` are called.
- `tests/` — tests of the library on concrete blocks and values.
- `app/` — unverified code around the library: REST JSON input, the SQLite database
  (diesel), the CSV files, and the floating-point columns (difficulty, work, percentiles and
  averages).
