# fdp

The rules of a payment platform, verified with Verus.

- `src/` is the library. It holds the domain (decimals, accounts, transactions,
  idempotency keys), the intake of requests, the processing of transactions, the
  consumer with its retries and dead letters, the outbox relay, fault injection
  and the reports. It does no input or output.
- `app/` runs the services around it: `ingestion`, `worker`, `outbox-relay` and
  `reporting`. It talks to PostgreSQL, Kafka and HTTP clients, and does what the
  library decides.
- `tests/` runs the library on concrete values.

## How decisions and outside work alternate

`Processing` (`src/processor.rs`), `Intake` (`src/submission.rs`), `Delivery`
(`src/consumer.rs`) and `Batch` (`src/relay.rs`) are step machines. Each step
gives an action; the caller performs it and hands back the event that came of
it. The contract of each step is a function of state and event, and
`src/trace.rs`, `src/intake_trace.rs` and the ends of the other two modules
prove what holds of whole runs:

- A run that returns success made all writes that settle the transaction it read,
  in one database transaction, or changed nothing. What a run commits is the whole
  settlement, or moves no money; this rests on a database that takes no further
  statement after a failed write.
- Every settlement has a debit and a credit of the same amount on two accounts,
  conserves money, and keeps balances what the ledger adds up to. A transfer from
  an account to itself is refused.
- The ledger entries of each account are numbered 1, 2, 3, without a gap
  (`src/numbering.rs`).
- A caller over the rate limit is refused before anything is stored. A repeated
  request stores nothing; a reused key with another body is refused.
- An offset is committed only when its message was dealt with. A message that
  failed is held, and nothing is received or committed, until the dead-letter
  queue has taken it. A message that cannot be read is committed even if the
  queue does not take it.
- Only acknowledged events are marked as published. An event that was not sent
  stays pending, and the later ones with its partition key wait for it. A batch
  sends the oldest pending events, oldest first.

What is said of sums holds where the decimal arithmetic is exact: where an operand
is zero, or both operands and the result fit a 96-bit mantissa with the larger of
the two scales. That nobody is overdrawn holds of all amounts.

A payment in or out needs an account for its other side: a counter-account of the
platform for the currency (`src/counter.rs`). Each currency has two of them, so that
a payment on one has the other on its other side. `app/` reads them from its
settings, and the worker does not start without them.

## What is trusted

The arithmetic of `rust_decimal`, the identifiers of `uuid`, the calendar of
`chrono`, `sha2`, `hex`, the delays of `backon` and the JSON reader of
`serde_json` are called behind small functions whose contracts say what is
relied on.
