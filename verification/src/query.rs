//! The read-only queries over the contract's state.
use vstd::prelude::*;

use crate::router::{requests_view, OutboundBatchRequest};
use crate::state::{white_listed_key, ContractState, ContractStateView};
use crate::text::{decimal, u64_to_decimal};
use crate::types::{StdError, StoredItem};
use crate::white_list::{lists_in_key_order, listed_view, white_list_key_fits};

verus! {

/// The key of acknowledgement records and recorded outbound requests: the
/// destination chain id followed by the chain type and the batch nonce in decimal.
pub open spec fn spec_ack_key(chain_id: Seq<char>, chain_type: nat, nonce: nat) -> Seq<char> {
    chain_id + decimal(chain_type) + decimal(nonce)
}

/// What reading the whitelist listing may give: every entry once, in
/// ascending order of storage keys.
pub open spec fn white_listed_listing(state: ContractStateView, res: Result<Vec<(Vec<u8>, String, u32)>, StdError>) -> bool {
    res matches Ok(keys) && lists_in_key_order(
        state.white_listed,
        keys@.map_values(|t: (Vec<u8>, String, u32)| listed_view(t)),
    )
}

/// What reading an acknowledgement record gives.
pub open spec fn ack_data_read(
    state: ContractStateView,
    chain_id: Seq<char>,
    chain_type: nat,
    nonce: nat,
    res: Result<String, StdError>,
) -> bool {
    let key = spec_ack_key(chain_id, chain_type, nonce);
    match res {
        Ok(v) => state.ack_status.dom().contains(key) && v@ == state.ack_status[key],
        Err(e) => !state.ack_status.dom().contains(key) && e == StdError::NotFound {
            item: StoredItem::AcknowledgementStatus,
        },
    }
}

/// What reading a recorded outbound request gives.
pub open spec fn contract_calls_read(
    state: ContractStateView,
    chain_id: Seq<char>,
    chain_type: nat,
    nonce: nat,
    res: Result<OutboundBatchRequest, StdError>,
) -> bool {
    let key = spec_ack_key(chain_id, chain_type, nonce);
    match res {
        Ok(v) => state.outbound_calls.dom().contains(key) && v@ == state.outbound_calls[key],
        Err(e) => !state.outbound_calls.dom().contains(key) && e == StdError::NotFound {
            item: StoredItem::OutboundCallsState,
        },
    }
}

/// What reading the waiting outbound requests gives.
pub open spec fn temp_state_read(state: ContractStateView, res: Result<Vec<OutboundBatchRequest>, StdError>) -> bool {
    match state.temp_outbound_requests {
        Some(r) => res matches Ok(v) && requests_view(v@) == r,
        None => res == Err::<Vec<OutboundBatchRequest>, StdError>(
            StdError::NotFound { item: StoredItem::TempOutboundRequests },
        ),
    }
}

/// What reading the most recent nonce gives.
pub open spec fn recent_nonce_read(state: ContractStateView, res: Result<u64, StdError>) -> bool {
    match state.last_outbound_nonce {
        Some(n) => res == Ok::<u64, StdError>(n),
        None => res == Err::<u64, StdError>(StdError::NotFound { item: StoredItem::LastOutboundNonce }),
    }
}

/// Builds the key of acknowledgement records and recorded outbound requests.
pub fn ack_status_key(chain_id: &String, chain_type: u64, nonce: u64) -> (res: String)
    ensures
        res@ == spec_ack_key(chain_id@, chain_type as nat, nonce as nat),
{
    let mut key = chain_id.clone();
    let t = u64_to_decimal(chain_type);
    key.append(t.as_str());
    let n = u64_to_decimal(nonce);
    key.append(n.as_str());
    key
}

/// Whether the contract is whitelisted; a contract that was never whitelisted is not.
pub fn is_white_listed_contract(
    state: &ContractState,
    chain_id: String,
    chain_type: u32,
    contract_address: Vec<u8>,
) -> (res: Result<bool, StdError>)
    requires
        state.wf(),
        white_list_key_fits(contract_address@, chain_id@),
    ensures
        res == Ok::<bool, StdError>(
            state@.white_listed.dom().contains(white_listed_key(contract_address@, chain_id@, chain_type)),
        ),
{
    Ok(state.has_white_listed(&contract_address, &chain_id, chain_type))
}

/// Every whitelisted contract once, in ascending order of its storage key.
pub fn fetch_white_listed_contract(state: &ContractState) -> (res: Result<Vec<(Vec<u8>, String, u32)>, StdError>)
    requires
        state.wf(),
    ensures
        white_listed_listing(state@, res),
{
    Ok(state.white_listed_keys())
}

/// The acknowledgement record of an outbound batch, or `NotFound`.
pub fn fetch_ack_data(
    state: &ContractState,
    destination_chain_id: String,
    destination_chain_type: u64,
    outbound_batch_nonce: u64,
) -> (res: Result<String, StdError>)
    requires
        state.wf(),
    ensures
        ack_data_read(state@, destination_chain_id@, destination_chain_type as nat, outbound_batch_nonce as nat, res),
{
    let key = ack_status_key(&destination_chain_id, destination_chain_type, outbound_batch_nonce);
    state.load_ack_status(&key)
}

/// The outbound request recorded for a batch nonce, or `NotFound`.
pub fn fetch_contract_calls(
    state: &ContractState,
    destination_chain_id: String,
    destination_chain_type: u64,
    outbound_batch_nonce: u64,
) -> (res: Result<OutboundBatchRequest, StdError>)
    requires
        state.wf(),
    ensures
        contract_calls_read(state@, destination_chain_id@, destination_chain_type as nat, outbound_batch_nonce as nat, res),
{
    let key = ack_status_key(&destination_chain_id, destination_chain_type, outbound_batch_nonce);
    state.load_outbound_calls(&key)
}

/// The outbound requests that wait for their reply, or `NotFound`.
pub fn fetch_temp_state(state: &ContractState) -> (res: Result<Vec<OutboundBatchRequest>, StdError>)
    ensures
        temp_state_read(state@, res),
{
    state.load_temp_outbound_requests()
}

/// The nonce of the most recent outbound batch, or `NotFound`.
pub fn fetch_recent_out_bound_nonce(state: &ContractState) -> (res: Result<u64, StdError>)
    ensures
        recent_nonce_read(state@, res),
{
    state.load_last_outbound_nonce()
}

} // verus!
