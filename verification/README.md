# archlab

A verified core for three small architecture labs, with the programs that
run it.

- `src/concurrency` — four ways to reserve stock under concurrent requests
  (a deliberately racy read-think-write, optimistic compare-and-swap with
  retries, pessimistic locking per product or globally, and a single writer
  behind a mailbox), plus the race-runner's command line and bookkeeping.
  Each strategy's steps carry exact contracts, and its promises (lost
  updates for the racy one, no overselling for the others) are stated as
  proof functions named `law_*`.
- `src/choreography` — an order workflow with no coordinator: inventory
  reserves and releases stock, payments joins two facts before charging,
  notifications emails each customer once, and orders narrates progress.
  Idempotency and arrival-order independence are proved as laws.
- `src/bff` — a users backend, an orders backend store, and two gateways
  that assemble a web screen and a mobile screen from backend answers.
- `src/table.rs`, `src/text.rs` — an id-keyed table, and the text
  primitives messages are built from (the outside calls they need sit behind
  small trusted wrappers whose contracts are documented in place).
  The users and orders stores keep their records in `IdTable`, a vector of
  rows, rather than a `HashMap`: listing every record (`all`, `list`) walks
  the rows by index, so the proof that each stored record comes out exactly
  once is a plain loop invariant. (The listings promise only that: every
  stored record, each once, in no stated order.) Lookups, which are all the
  choreography stores need, use `HashMap` keyed by id. The stock table keys
  rows by product name for the same reason and because the verifier proves
  little of a `String`-keyed map.
- `tests/` — executable scenarios for every module.
- `app/` — the network programs: HTTP servers, NATS subscriptions, HTTP
  clients, timing and printing. The first argument names the program.
