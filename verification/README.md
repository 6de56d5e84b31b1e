# apraxus-node

A node for the Apraxus (APXS) token, written in Verus. The library under
`src/` holds the node's logic with its contracts and proofs; `app/` is the
program around it (command line, files, TCP peers, HTTP API, JSON).

- `transaction`: signed transfers, their message formats (legacy and
  current), address derivation and signature checking.
- `block`: blocks and their SHA-256 hash.
- `balances`: the ledger, a map from addresses to amounts, kept as a list of
  entries in which no address occurs twice. A `HashMap<String, u64>` was
  tried first: vstd's specification of `HashMap` holds only for key types
  known to obey its key model, which it does not establish for `String`, so
  nothing about such a map could be proved.
- `blockchain`: the chain, genesis minting, admission to the mempool,
  mining, validation and adoption of a peer's chain.
- `loading`: the checks run on a chain read from storage.
- `wallet`: key pairs, addresses and signed transfers.
- `network`, `api`: decisions of the peer protocol and state of the HTTP API.
- `amount`, `text`: amounts as text; decimal and hexadecimal renderings.
- `crypto`: the trusted wrappers around `sha2`, `ed25519-dalek`,
  `getrandom` and `chrono` (the clock, which may be unreadable: functions that
  read it return `None` or `false` then).

Among the proved properties: mining keeps the sum of all balances and keeps
a valid chain valid; admission never lets a sender's pending transfers exceed
its confirmed balance and never admits a transfer twice; a chain is only
replaced by a valid, longer one; a transfer made by a wallet verifies exactly
when it is a real transfer; a valid chain passes the load checks unchanged.
