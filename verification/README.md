# runtime_fuzzing

Fuzzing campaigns against a blockchain runtime, with the decisions verified by Verus.

- `src/` is the verified library. It turns the bytes of a fuzzer into runtime calls, decides what to
  do next with the runtime and with the telemetry database, checks the balances of the chain, and
  formats what is recorded. It performs no I/O: `flush::Flush`, `setup::Setup` and `execution::Run`
  say which step is due and take up what came of it.
- `app/` performs those steps on the kitchensink runtime and on SQLite databases. It is a libFuzzer
  binary; the environment variable `FUZZ_TARGET` names the campaign, `runtime` (the default) or
  `balance_transfer`.
- `tests/` runs the library.

The library calls `arbitrary`, `serde_json`, `sp-core`, `sp-runtime`, `sp-consensus-babe`,
`sp-consensus-beefy` and `parity-scale-codec` through small functions whose contracts are believed,
not proved; each says in its doc comment what it claims of the outside function.

Execution records of the kitchensink campaign can be written in batches of 100 or each at once:
`kitchensink::ExecutionFlushing`.
