//! A verified model of a cross-chain data transfer contract: owner-guarded
//! whitelisting of application contracts, decoding of inbound requests into
//! outbound batch requests, bookkeeping of replies and acknowledgements,
//! and the read-only queries over that state.
pub mod abi;
pub mod call_laws;
pub mod contract;
pub mod execution;
pub mod handle_acknowledgement;
pub mod handle_inbound;
pub mod history;
pub mod key_order;
pub mod laws;
pub mod msg;
pub mod query;
pub mod router;
pub mod state;
pub mod storage_key;
pub mod string_map;
pub mod text;
pub mod types;
pub mod white_list;
