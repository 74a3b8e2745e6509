# fact_store

The core of a local, SQLite-backed ledger of signed protocol objects
(propositions, revisions, deliberations, decisions, settlements, grants,
lifecycle steps, extension events), written in Verus and verified.

- `src/` is the verified library: codecs, identifier ranges and short
  references, the reading of protocol documents, the lineage, roster,
  participation and authority rules and the cross-object rules that
  validation applies, the dependency-closure walk, the projection rows
  read from documents, and the projection rules that decide the effective
  state, lifecycle state and listing of each proposition. The laws the
  library keeps are public proof functions (`law_*`) beside the functions
  they speak of.
- `tests/` runs the library on concrete values.
- `app/` holds the SQLite side: the connection and its settings, the
  queries, and the writes that record what the library decides.

Run `verus` on `src/lib.rs` to check the proofs.
