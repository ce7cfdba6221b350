# newsfeed

A verified news-feed registry: accounts create feeds, hand them over, set
subscription fees, and subscribe to or unsubscribe from the feeds of others;
the subscriptions of a block are handed to an offchain worker when the block
is finalized.

- `src/types.rs` — configuration, feeds, subscriptions, errors, events, origins.
- `src/encoding.rs` — the byte layouts written and read, and the calls into
  `parity-scale-codec`.
- `src/ids.rs` — identifiers drawn from the block's randomness (BLAKE2b-128 via
  `frame_support::Hashable`).
- `src/pallet.rs` — the storage, its invariant (`PalletView::wf`) and the calls,
  each specified by a `*_step` function over `PalletView`.
- `src/offchain.rs` — block finalization and the offchain worker's reading.
- `src/laws.rs` — properties that relate several calls, including any sequence
  of calls (`Call`, `run`).
- `app/lib.rs` — runtime glue: origins, randomness, payments through the
  runtime's currency, the offchain index and logging.

Calls that pay a fee are split in two: a `*_payment` function names the payment
the call asks for, and the call itself takes whether the currency made it.
