//! The messages that users send to the contract, and the answers to queries.
use vstd::prelude::*;

use crate::router::OutboundBatchRequest;
use crate::types::ContractVersion;

verus! {

/// Sets the contract up; it carries nothing.
#[derive(Clone, Debug, PartialEq, Eq)]
pub struct InstantiateMsg {}

/// The owner's operations on the whitelist.
#[derive(Clone, Debug, PartialEq, Eq)]
pub enum ExecuteMsg {
    WhiteListApplicationContract { chain_id: String, chain_type: u32, contract_address: Vec<u8> },
    WhiteListApplicationContracts { contracts: Vec<ApplicationContract> },
    DelistApplicationContract { chain_id: String, chain_type: u32, contract_address: Vec<u8> },
}

/// Moves the contract to this code; it carries nothing.
#[derive(Clone, Debug, PartialEq, Eq)]
pub struct MigrateMsg {}

/// The read-only questions that the contract answers.
#[derive(Clone, Debug, PartialEq, Eq)]
pub enum QueryMsg {
    /// The recorded contract name and version.
    GetContractVersion {},
    /// Whether the contract is whitelisted.
    IsWhiteListedContract { chain_id: String, chain_type: u32, contract_address: Vec<u8> },
    FetchWhiteListedContract {},
    FetchAckData { destination_chain_id: String, destination_chain_type: u64, outbound_batch_nonce: u64 },
    FetchContractCalls { destination_chain_id: String, destination_chain_type: u64, outbound_batch_nonce: u64 },
    FetchTempItem {},
    FetchRecentOutboundNonce {},
}

/// A contract on some chain, as the owner names it for the whitelist.
#[derive(Clone, Debug, PartialEq, Eq)]
pub struct ApplicationContract {
    pub chain_id: String,
    pub chain_type: u32,
    pub contract_address: Vec<u8>,
}

/// The answer to a query, before it is serialized.
#[derive(Clone, Debug, PartialEq, Eq)]
pub enum QueryResponse {
    ContractVersion(ContractVersion),
    IsWhiteListed(bool),
    WhiteListedContracts(Vec<(Vec<u8>, String, u32)>),
    AckData(String),
    ContractCalls(OutboundBatchRequest),
    TempItem(Vec<OutboundBatchRequest>),
    RecentOutboundNonce(u64),
}

} // verus!
