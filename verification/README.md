# kanari

The core logic of the Kanari node as a Verus library: the functions under
`src/` carry contracts that Verus proves, and the laws that tie several
functions together stand as public proof functions beside them. The few
functions marked `#[verifier::external_body]` are the exception: each
makes one call into std or an outside crate (`hex`, `bech32`, `secp256k1`
through `bitcoin`, `jsonrpsee`), and its contract is trusted, not proved;
its doc comment says what the contract claims of the call.

- `src/types`, `src/text`: chain and multichain identifiers, addresses and
  the decimal text codecs they are written in; secret-key parsing.
- `src/store`, `src/da`: the DA meta store (submitting blocks, rollback and
  repair) and the batch maker.
- `src/indexer`: the SQL the indexer reader runs, the object-type range
  queries, and the repair of the object-state tables.
- `src/keystore`: the keystore's bookkeeping of keys, mnemonics and session
  keys.
- `src/rpc`, `src/executor`, `src/framework`: the RPC service's decisions,
  its error codes, the server's start-up plan, the admission of blocks and
  transactions of other chains, and the genesis checks.
- `src/faucet`, `src/proposer`, `src/notify`, `src/block_files`,
  `src/data_verify`: the faucet's decisions, the proposer's starting point,
  service status messages, block-file lookup and inscription checks.

`app/` is ordinary Rust around the library: file and network I/O, database
and actor plumbing, reached through traits. `tests/` runs the library on
concrete values.
