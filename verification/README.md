# kernel_playground

Per-transaction wallet fingerprints and heuristics for Bitcoin transactions, and
their encoding as a fixed feature matrix, as a Verus-verified library.

- `src/` is the library. Each module states what its functions return over
  mathematical models (`Seq`, spec functions) and Verus proves it:
  - `types`: categorical vocabularies with stable codes and labels.
  - `tx`: transactions as plain data; decoding and txids through rust-bitcoin.
  - `rawtx`: rawtx-rs input/output characteristics.
  - `fingerprints`: per-input taproot facts beside the tx-indexer fingerprint set.
  - `change`, `heuristics`: change detection and the extra heuristics.
  - `block`: same-block CPFP context and the per-transaction analysis record.
  - `normalize`: the feature schema and the row encoding of a record.
  - `scan`, `rows`: the decisions of the block walk and column-major row staging.
- `tests/` runs the library on concrete transactions.
- `app/` is the command-line program: it reads blocks through libbitcoinkernel,
  computes the tx-indexer fingerprint set, and writes Parquet with polars.
