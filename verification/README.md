# generic-data-transfer

A CosmWasm contract for the Router chain that carries data between chains:
the owner keeps a whitelist of application contracts, the Router chain hands
the contract inbound requests (an ABI-encoded payload, or the hexadecimal
text of one, naming a destination chain and contract), the contract answers with an outbound batch request,
records the nonce that the Router chain assigns to it, and keeps the
acknowledgements that come back.

Layout:

- `src/` — the contract's logic in Verus. `contract.rs` holds the entry
  points (`instantiate`, `execute`, `sudo`, `reply`, `migrate`, `query`);
  `execution.rs`, `handle_inbound.rs`, `handle_acknowledgement.rs` and
  `query.rs` the handlers; `state.rs` the persistent state over the
  collections in `white_list.rs` and `string_map.rs`; `storage_key.rs`,
  `abi.rs` and `text.rs` the calls into cw-storage-plus, ethabi, hex, base64
  and std, each with the contract it is trusted to meet; `laws.rs` the
  properties that relate the operations, `key_order.rs` the order in which
  the whitelist is listed, and `history.rs` what a run of calls leaves of
  the owner, the waiting outbound requests and the most recent nonce.
- `app/` — the on-chain entry points: they load the state from the chain's
  store, call the library and write the state back, and hold the serde forms
  of the messages.
- `tests/` — tests of the library on concrete values.
