# dig-wallet-backend

The engine of a Chia wallet. It builds unsigned spends (sends, combines, splits, offers, options,
tips, DID and NFT operations), keeps the wallet's state, follows the chain and tells subscribers
what changed. It never holds a key: it works on public material and hands out spends with the list
of signatures that they need.

- `src/` is the library. Every function carries its contract, and Verus proves it. `types/` holds
  the data, `engine/` the logic. The files named `*_driver.rs` and `driver.rs` hold the calls into
  the Chia and DIG crates; what the library relies on about each call stands above it.
- `tests/` runs the library with the real crates, on a simulated chain where a spend has to settle.
- `app/` is the running side: the async interfaces, the SQLite store, the live event transport and
  the wire forms.
