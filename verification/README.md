# solana

Three parts of a ledger node, verified with Verus:

- the system program, which creates accounts, hands them to programs and moves tokens
  (`src/system.rs`, with its instructions in `src/system_instruction.rs`),
- the store that accounts are appended to (`src/appendvec.rs`, with the values that it can keep in
  `src/storable.rs`),
- the requests that a node answers (`src/rpc.rs`, `src/airdrop.rs`, with the node's other parts as
  traits in `src/services.rs`).

What the library takes from outside crates on trust stands in `src/wire.rs` (bincode),
`src/base58.rs` (bs58), `src/rpc_error.rs` (jsonrpc-core) and `src/mapped.rs` (memmap), and of std
it trusts `Arc::clone` (`shared` in `src/rpc.rs`). The theorems that relate several functions are
the public proof functions named `law_..`.

`app/` holds the edges: the file behind a store, the JSON-RPC service with its sockets, and the
entry by which the system program is loaded.
