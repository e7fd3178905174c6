# voletu_core

The domain core of Voletu, a logistics application for incoming and outgoing
cargo, transfers, blending, reconciliation and multi-node synchronisation,
written in Verus: every function of `src/` carries a contract, which Verus
proves, except the few marked `#[verifier::external_body]` that call `chrono`,
`uuid`, `serde_json`, `rust_decimal` or `str::to_lowercase`; their contracts are
stated from those crates' behaviour and believed.

## Layout

- `src/models.rs`, `src/enums.rs`, `src/errors.rs`: document records, shared
  enumerations and the reasons an operation is refused.
- `src/quantity.rs`: quantities as decimals (mantissa and scale), negated
  exactly, added and compared with `rust_decimal`.
- `src/execution.rs`, `src/ledger.rs`: the balance changes and ledger rows of
  executing and reverting each document kind, balances, and reversals, with the
  laws that a reversion cancels an execution, that reverting twice changes
  nothing, that after a revert the rows of the document sum to zero, and that
  execution and reversion keep the reversal rows of the ledger exact.
- `src/rules.rs`, `src/updates.rs`: validation of requests and partial updates.
- `src/selection.rs`, `src/query.rs`: query specifications and what each listing
  selects.
- `src/flat_rows.rs`, `src/pipelines.rs`, `src/cargo_flow.rs`: the flat, pipeline
  and cargo flow listings.
- `src/flow.rs`: the flow views: truck and rail receipt flows, the truck
  dispatch flow, and the unified cargo flow of every document kind, sorted by
  date newest first and paged.
- `src/sync_merge.rs`, `src/sync_helpers.rs`, `src/base_ids.rs`,
  `src/await_cycle.rs`, `src/restore.rs`: merging replicated audit logs, base
  discriminants, target base lists, the values an accepted log is stored with,
  watermarks, waiting for a sync cycle, and restoring replicated rows.
- `src/jwt.rs`: access token claims.
- `app/`: the runtime around the core (token signing, the polling loop of a sync
  wait, identifiers, instants and decimals, API errors).
- `tests/`: tests of the library on concrete values.
