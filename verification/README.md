# production_escrow

A verified escrow ledger for agricultural production campaigns, written in
Verus, with the Soroban contract that hosts it.

- `src/types.rs` — campaign records, tranches, disputes, harvest records,
  error codes, and the effects and events an operation hands to its host.
- `src/accounting.rs` — what a campaign still holds in escrow, terminal
  statuses, the truncating pro-rata share, and the solvency rule.
- `src/contributions.rs` — per-investor contributions of one campaign, their
  totals, and what investors can claim together.
- `src/escrow.rs` — the ledger (`ProductionEscrowContract`) and its
  operations. Every operation either rejects a request and leaves the ledger
  unchanged, or updates it and returns the effects to carry out; every
  operation keeps the ledger well formed, moves campaigns only along their
  lifecycle, and never changes a resolved, settled or failed campaign
  (`ledger_step`). Releases pay the campaign's farmer the next configured
  tranche in order. Laws over runs of operations are proved as lemmas:
  claims never pay out more than their pool and leave less than one unit of
  dust per investor, an investor is paid at most once, closed campaigns
  accept nothing but claims, the administrator never changes once set, and
  what a campaign has released is the sum of its released tranches.
- `app/lib.rs` — the Soroban contract: storage, authorisation, token
  transfers and balances, ledger time and events around the ledger.
- `tests/` — scenarios run against the compiled library.

Scope: this crate covers the escrow only. A companion registry of farmers,
campaign records and activity logs is outside it and is not modelled here.
