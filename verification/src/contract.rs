//! The contract's entry points: set-up, the owner's operations, the Router
//! chain's privileged calls, replies, migration and queries.
use vstd::prelude::*;
use vstd::string::*;
use vstd::utf8::encode_utf8;

use crate::execution::{
    contracts_fit, delist_application_contract, delist_outcome, update_white_listed_application_contracts,
    update_white_listed_outcome, white_list_application_contract, white_list_outcome,
};
use crate::handle_acknowledgement::{ack_record, ack_response, handle_out_bound_ack_request};
use crate::handle_inbound::{handle_in_bound_request, inbound_outcome};
use crate::msg::{ExecuteMsg, InstantiateMsg, MigrateMsg, QueryMsg, QueryResponse};
use crate::query::{
    fetch_ack_data, fetch_contract_calls, fetch_recent_out_bound_nonce, fetch_temp_state,
    fetch_white_listed_contract, is_white_listed_contract, spec_ack_key,
};
use crate::router::{requests_view, OutboundBatchRequestView, OutboundBatchResponse, SudoMsg};
use crate::state::{white_listed_key, ContractState, ContractStateView};
use crate::storage_key::{bytes_less, bytes_lt};
use crate::text::{decimal, u64_to_decimal};
use crate::types::{
    attr, attributes_response, empty_response, generic_err, lit, outcome_view, result_view, AttributeView,
    ContractVersion, ContractVersionView, Env, MessageInfo, Reply, Response, ResponseView, StdError, StdErrorView,
    StoredItem, SubMsgResult,
};
use crate::white_list::{lists_in_key_order, listed_view, white_list_key_fits};

verus! {

/// The name under which the contract records its code.
pub const CONTRACT_NAME: &'static str = "generic-data-transfer";

/// The version of this code.
pub const CONTRACT_VERSION: &'static str = "0.1.1";

/// A request lifetime in seconds that this module declares and does not use.
pub const REQUEST_TIMEOUT: u64 = 600;

/// The id under which the reply to an outbound batch request comes back.
pub const CREATE_OUTBOUND_REPLY_ID: u64 = 1;

/// The name and version that this code records.
pub open spec fn this_version() -> ContractVersionView {
    ContractVersionView { contract: CONTRACT_NAME@, version: CONTRACT_VERSION@ }
}

fn make_this_version() -> (res: ContractVersion)
    ensures
        res@ == this_version(),
{
    ContractVersion { contract: lit(CONTRACT_NAME), version: lit(CONTRACT_VERSION) }
}

/// The response to the set-up.
pub open spec fn instantiate_response() -> ResponseView {
    attributes_response(seq![attr("action"@, "generic-data-transfer intstantiated"@)])
}

/// Sets the contract up: the sender becomes the owner and this code's name and version are recorded.
pub fn instantiate(state: &mut ContractState, env: &Env, info: &MessageInfo, msg: InstantiateMsg) -> (res: Result<
    Response,
    StdError,
>)
    requires
        old(state).wf(),
    ensures
        final(state).wf(),
        final(state)@ == (ContractStateView {
            owner: Some(info.sender@),
            contract_version: Some(this_version()),
            ..old(state)@
        }),
        res matches Ok(r) && r@ == instantiate_response(),
{
    state.save_owner(info.sender.clone());
    state.save_contract_version(make_this_version());
    let res = Response::new().add_attribute(lit("action"), lit("generic-data-transfer intstantiated"));
    assert(res@.attributes =~= instantiate_response().attributes);
    Ok(res)
}

/// What a privileged call of the Router chain answers and the state it leaves; `None` stands where it aborts.
pub open spec fn sudo_outcome(state: ContractStateView, env: Env, msg: SudoMsg) -> (
    Option<Result<ResponseView, StdErrorView>>,
    ContractStateView,
) {
    match msg {
        SudoMsg::HandleInboundReq { sender, chain_type, source_chain_id, payload } => inbound_outcome(
            state,
            env.block_time_nanos,
            sender@,
            chain_type,
            source_chain_id@,
            payload@,
        ),
        SudoMsg::HandleOutboundAck {
            outbound_tx_requested_by,
            destination_chain_type,
            destination_chain_id,
            outbound_batch_nonce,
            contract_ack_responses,
            execution_code,
            execution_status,
        } => (
            Some(Ok(ack_response(outbound_tx_requested_by@, destination_chain_type, destination_chain_id@, outbound_batch_nonce))),
            ContractStateView {
                ack_status: state.ack_status.insert(
                    spec_ack_key(destination_chain_id@, destination_chain_type as nat, outbound_batch_nonce as nat),
                    ack_record(execution_code, execution_status, contract_ack_responses@),
                ),
                ..state
            },
        ),
    }
}

/// Dispatches a privileged call of the Router chain. `None` stands where the call aborts.
pub fn sudo(state: &mut ContractState, env: &Env, msg: SudoMsg) -> (res: Option<Result<Response, StdError>>)
    requires
        old(state).wf(),
    ensures
        final(state).wf(),
        (outcome_view(res), final(state)@) == sudo_outcome(old(state)@, *env, msg),
{
    match msg {
        SudoMsg::HandleInboundReq { sender, chain_type, source_chain_id, payload } => handle_in_bound_request(
            state,
            env,
            sender,
            chain_type,
            source_chain_id,
            payload,
        ),
        SudoMsg::HandleOutboundAck {
            outbound_tx_requested_by,
            destination_chain_type,
            destination_chain_id,
            outbound_batch_nonce,
            contract_ack_responses,
            execution_code,
            execution_status,
        } => Some(
            handle_out_bound_ack_request(
                state,
                env,
                outbound_tx_requested_by,
                destination_chain_type,
                destination_chain_id,
                outbound_batch_nonce,
                contract_ack_responses,
                execution_code,
                execution_status,
            ),
        ),
    }
}

/// The message names contracts that fit the storage key format; only the
/// owner's messages reach the store, so only they need to.
pub open spec fn execute_msg_fits(msg: ExecuteMsg) -> bool {
    match msg {
        ExecuteMsg::WhiteListApplicationContract { chain_id, chain_type, contract_address } => white_list_key_fits(
            contract_address@,
            chain_id@,
        ),
        ExecuteMsg::WhiteListApplicationContracts { contracts } => contracts_fit(contracts@),
        ExecuteMsg::DelistApplicationContract { chain_id, chain_type, contract_address } => white_list_key_fits(
            contract_address@,
            chain_id@,
        ),
    }
}

/// What an owner's message answers and the state it leaves.
pub open spec fn execute_outcome(state: ContractStateView, sender: Seq<char>, msg: ExecuteMsg) -> (
    Result<ResponseView, StdErrorView>,
    ContractStateView,
) {
    match msg {
        ExecuteMsg::WhiteListApplicationContract { chain_id, chain_type, contract_address } => white_list_outcome(
            state,
            sender,
            chain_id@,
            chain_type,
            contract_address@,
        ),
        ExecuteMsg::WhiteListApplicationContracts { contracts } => update_white_listed_outcome(
            state,
            sender,
            contracts@,
        ),
        ExecuteMsg::DelistApplicationContract { chain_id, chain_type, contract_address } => delist_outcome(
            state,
            sender,
            chain_id@,
            chain_type,
            contract_address@,
        ),
    }
}

/// Dispatches an owner's message.
pub fn execute(state: &mut ContractState, env: &Env, info: &MessageInfo, msg: ExecuteMsg) -> (res: Result<
    Response,
    StdError,
>)
    requires
        old(state).wf(),
        old(state)@.owner == Some(info.sender@) ==> execute_msg_fits(msg),
    ensures
        final(state).wf(),
        (result_view(res), final(state)@) == execute_outcome(old(state)@, info.sender@, msg),
{
    match msg {
        ExecuteMsg::WhiteListApplicationContract { chain_id, chain_type, contract_address } => {
            white_list_application_contract(state, env, info, chain_id, chain_type, contract_address)
        },
        ExecuteMsg::WhiteListApplicationContracts { contracts } => {
            update_white_listed_application_contracts(state, env, info, contracts)
        },
        ExecuteMsg::DelistApplicationContract { chain_id, chain_type, contract_address } => {
            delist_application_contract(state, env, info, chain_id, chain_type, contract_address)
        },
    }
}

/// The nonces of the Router chain's answers, in order.
pub open spec fn response_nonces(responses: Seq<OutboundBatchResponse>) -> Seq<u64> {
    responses.map_values(|r: OutboundBatchResponse| r.outbound_batch_nonce)
}

/// The outbound requests recorded by key after the `i`-th request of `requests`
/// is stored under the key of its destination and the `i`-th nonce, for each nonce in order.
pub open spec fn recorded_calls(
    calls: Map<Seq<char>, OutboundBatchRequestView>,
    requests: Seq<OutboundBatchRequestView>,
    nonces: Seq<u64>,
) -> Map<Seq<char>, OutboundBatchRequestView>
    decreases nonces.len(),
{
    if nonces.len() == 0 {
        calls
    } else {
        let i = nonces.len() - 1;
        recorded_calls(calls, requests, nonces.drop_last()).insert(
            spec_ack_key(requests[i].destination_chain_id, requests[i].destination_chain_type as nat, nonces[i] as nat),
            requests[i],
        )
    }
}

/// The attributes of a reply: `outbound_nonce_<i>` for the `i`-th nonce.
pub open spec fn nonce_attributes(nonces: Seq<u64>) -> Seq<AttributeView> {
    Seq::new(nonces.len(), |i: int| attr("outbound_nonce_"@ + decimal(i as nat), decimal(nonces[i] as nat)))
}

/// A reply does not name more nonces than there are waiting requests;
/// reading past their end aborts the call.
pub open spec fn reply_in_bounds(state: ContractStateView, msg: Reply) -> bool {
    msg.id == CREATE_OUTBOUND_REPLY_ID ==> match msg.result {
        SubMsgResult::Success(r) => match (r.data, state.temp_outbound_requests) {
            (Some(d), Some(t)) => d.outbound_batch_responses@.len() <= t.len(),
            _ => true,
        },
        SubMsgResult::Failure(_) => true,
    }
}

/// What a reply answers and the state it leaves.
pub open spec fn reply_outcome(state: ContractStateView, msg: Reply) -> (
    Result<ResponseView, StdErrorView>,
    ContractStateView,
) {
    if msg.id != CREATE_OUTBOUND_REPLY_ID {
        (Err(generic_err("Unknown reply id: "@ + decimal(msg.id as nat))), state)
    } else {
        match msg.result {
            SubMsgResult::Failure(_) => (Ok(empty_response()), state),
            SubMsgResult::Success(r) => match r.data {
                None => (Ok(empty_response()), state),
                Some(d) => match state.temp_outbound_requests {
                    None => (Err(StdErrorView::NotFound { item: StoredItem::TempOutboundRequests }), state),
                    Some(t) => {
                        let nonces = response_nonces(d.outbound_batch_responses@);
                        (
                            Ok(attributes_response(nonce_attributes(nonces))),
                            ContractStateView {
                                last_outbound_nonce: if nonces.len() == 0 {
                                    state.last_outbound_nonce
                                } else {
                                    Some(nonces.last())
                                },
                                outbound_calls: recorded_calls(state.outbound_calls, t, nonces),
                                ..state
                            },
                        )
                    },
                },
            },
        }
    }
}

/// Takes the Router chain's answer to the outbound batch requests: each
/// nonce becomes the most recent one, and each waiting request is recorded
/// under its destination and nonce.
pub fn reply(state: &mut ContractState, env: &Env, msg: Reply) -> (res: Result<Response, StdError>)
    requires
        old(state).wf(),
        reply_in_bounds(old(state)@, msg),
    ensures
        final(state).wf(),
        (result_view(res), final(state)@) == reply_outcome(old(state)@, msg),
{
    if msg.id != CREATE_OUTBOUND_REPLY_ID {
        let mut text = lit("Unknown reply id: ");
        let id = u64_to_decimal(msg.id);
        text.append(id.as_str());
        return Err(StdError::GenericErr { msg: text });
    }
    let mut response = Response::new();
    match msg.result {
        SubMsgResult::Success(msg_result) => match msg_result.data {
            Some(outbound_responses) => {
                let response_vec = outbound_responses.outbound_batch_responses;
                let temp_state_vec = state.load_temp_outbound_requests()?;
                let ghost s0 = state@;
                let ghost t = requests_view(temp_state_vec@);
                let ghost nonces = response_nonces(response_vec@);
                let n = response_vec.len();
                assert(nonce_attributes(nonces.take(0)) =~= Seq::<AttributeView>::empty());
                assert(recorded_calls(s0.outbound_calls, t, nonces.take(0)) == s0.outbound_calls);
                for i in 0..n
                    invariant
                        n == response_vec@.len(),
                        n <= temp_state_vec@.len(),
                        t == requests_view(temp_state_vec@),
                        nonces == response_nonces(response_vec@),
                        s0.temp_outbound_requests == Some(t),
                        state.wf(),
                        state@ == (ContractStateView {
                            last_outbound_nonce: if i == 0 {
                                s0.last_outbound_nonce
                            } else {
                                Some(nonces[i - 1])
                            },
                            outbound_calls: recorded_calls(s0.outbound_calls, t, nonces.take(i as int)),
                            ..s0
                        }),
                        response@ == attributes_response(nonce_attributes(nonces.take(i as int))),
                {
                    let nonce: u64 = response_vec[i].outbound_batch_nonce;
                    state.save_last_outbound_nonce(nonce);
                    let temp_state = &temp_state_vec[i];
                    let ack_status_key = crate::query::ack_status_key(
                        &temp_state.destination_chain_id,
                        temp_state.destination_chain_type as u64,
                        nonce,
                    );
                    state.save_outbound_calls(ack_status_key, temp_state.duplicate());
                    let mut att_key = lit("outbound_nonce_");
                    let idx = u64_to_decimal(i as u64);
                    att_key.append(idx.as_str());
                    response = response.add_attribute(att_key, u64_to_decimal(nonce));
                    proof {
                        assert(nonces.take(i + 1).drop_last() =~= nonces.take(i as int));
                        assert(nonces[i as int] == nonce);
                        assert(nonce_attributes(nonces.take(i + 1)) =~= nonce_attributes(nonces.take(i as int)).push(
                            attr("outbound_nonce_"@ + decimal(i as nat), decimal(nonce as nat)),
                        ));
                    }
                }
                assert(nonces.take(n as int) =~= nonces);
            },
            None => {},
        },
        SubMsgResult::Failure(err) => {},
    }
    Ok(response)
}

/// What a migration answers and the state it leaves: it is refused unless
/// the recorded code is this contract at a version that comes before this
/// one in byte order.
pub open spec fn migrate_outcome(state: ContractStateView) -> (Result<ResponseView, StdErrorView>, ContractStateView) {
    match state.contract_version {
        None => (Err(StdErrorView::NotFound { item: StoredItem::ContractInfo }), state),
        Some(v) => if v.contract != CONTRACT_NAME@ {
            (Err(generic_err("Can only upgrade from same type"@)), state)
        } else if !bytes_lt(encode_utf8(v.version), encode_utf8(CONTRACT_VERSION@)) {
            (Err(generic_err("Cannot upgrade from a newer version"@)), state)
        } else {
            (Ok(empty_response()), ContractStateView { contract_version: Some(this_version()), ..state })
        },
    }
}

/// Moves the contract to this code.
pub fn migrate(state: &mut ContractState, env: &Env, msg: MigrateMsg) -> (res: Result<Response, StdError>)
    requires
        old(state).wf(),
    ensures
        final(state).wf(),
        (result_view(res), final(state)@) == migrate_outcome(old(state)@),
{
    let ver = state.load_contract_version()?;
    if !(ver.contract == lit(CONTRACT_NAME)) {
        return Err(StdError::GenericErr { msg: lit("Can only upgrade from same type") });
    }
    let recorded = vstd::slice::slice_to_vec(ver.version.as_str().as_bytes());
    let current = vstd::slice::slice_to_vec(CONTRACT_VERSION.as_bytes());
    if !bytes_less(&recorded, &current) {
        return Err(StdError::GenericErr { msg: lit("Cannot upgrade from a newer version") });
    }
    state.save_contract_version(make_this_version());
    Ok(Response::new())
}

/// The query names a contract that fits the storage key format.
pub open spec fn query_msg_fits(msg: QueryMsg) -> bool {
    match msg {
        QueryMsg::IsWhiteListedContract { chain_id, chain_type, contract_address } => white_list_key_fits(
            contract_address@,
            chain_id@,
        ),
        _ => true,
    }
}

/// The answer a query gets from the state.
pub open spec fn query_answer(state: ContractStateView, msg: QueryMsg, res: Result<QueryResponse, StdError>) -> bool {
    match msg {
        QueryMsg::GetContractVersion {} => match state.contract_version {
            Some(v) => res matches Ok(QueryResponse::ContractVersion(x)) && x@ == v,
            None => res == Err::<QueryResponse, StdError>(StdError::NotFound { item: StoredItem::ContractInfo }),
        },
        QueryMsg::IsWhiteListedContract { chain_id, chain_type, contract_address } => res == Ok::<
            QueryResponse,
            StdError,
        >(QueryResponse::IsWhiteListed(state.white_listed.dom().contains(white_listed_key(contract_address@, chain_id@, chain_type)))),
        QueryMsg::FetchWhiteListedContract {} => res matches Ok(QueryResponse::WhiteListedContracts(keys))
            && lists_in_key_order(state.white_listed, keys@.map_values(|t: (Vec<u8>, String, u32)| listed_view(t))),
        QueryMsg::FetchAckData { destination_chain_id, destination_chain_type, outbound_batch_nonce } => {
            let key = spec_ack_key(destination_chain_id@, destination_chain_type as nat, outbound_batch_nonce as nat);
            if state.ack_status.dom().contains(key) {
                res matches Ok(QueryResponse::AckData(v)) && v@ == state.ack_status[key]
            } else {
                res == Err::<QueryResponse, StdError>(StdError::NotFound { item: StoredItem::AcknowledgementStatus })
            }
        },
        QueryMsg::FetchContractCalls { destination_chain_id, destination_chain_type, outbound_batch_nonce } => {
            let key = spec_ack_key(destination_chain_id@, destination_chain_type as nat, outbound_batch_nonce as nat);
            if state.outbound_calls.dom().contains(key) {
                res matches Ok(QueryResponse::ContractCalls(v)) && v@ == state.outbound_calls[key]
            } else {
                res == Err::<QueryResponse, StdError>(StdError::NotFound { item: StoredItem::OutboundCallsState })
            }
        },
        QueryMsg::FetchTempItem {} => match state.temp_outbound_requests {
            Some(t) => res matches Ok(QueryResponse::TempItem(v)) && requests_view(v@) == t,
            None => res == Err::<QueryResponse, StdError>(StdError::NotFound { item: StoredItem::TempOutboundRequests }),
        },
        QueryMsg::FetchRecentOutboundNonce {} => match state.last_outbound_nonce {
            Some(n) => res == Ok::<QueryResponse, StdError>(QueryResponse::RecentOutboundNonce(n)),
            None => res == Err::<QueryResponse, StdError>(StdError::NotFound { item: StoredItem::LastOutboundNonce }),
        },
    }
}

/// Answers a query from the state.
pub fn query(state: &ContractState, env: &Env, msg: QueryMsg) -> (res: Result<QueryResponse, StdError>)
    requires
        state.wf(),
        query_msg_fits(msg),
    ensures
        query_answer(state@, msg, res),
{
    match msg {
        QueryMsg::GetContractVersion {} => match state.load_contract_version() {
            Ok(v) => Ok(QueryResponse::ContractVersion(v)),
            Err(e) => Err(e),
        },
        QueryMsg::IsWhiteListedContract { chain_id, chain_type, contract_address } => match is_white_listed_contract(
            state,
            chain_id,
            chain_type,
            contract_address,
        ) {
            Ok(b) => Ok(QueryResponse::IsWhiteListed(b)),
            Err(e) => Err(e),
        },
        QueryMsg::FetchWhiteListedContract {} => match fetch_white_listed_contract(state) {
            Ok(keys) => Ok(QueryResponse::WhiteListedContracts(keys)),
            Err(e) => Err(e),
        },
        QueryMsg::FetchAckData { destination_chain_id, destination_chain_type, outbound_batch_nonce } => match fetch_ack_data(
            state,
            destination_chain_id,
            destination_chain_type,
            outbound_batch_nonce,
        ) {
            Ok(v) => Ok(QueryResponse::AckData(v)),
            Err(e) => Err(e),
        },
        QueryMsg::FetchContractCalls { destination_chain_id, destination_chain_type, outbound_batch_nonce } => match fetch_contract_calls(
            state,
            destination_chain_id,
            destination_chain_type,
            outbound_batch_nonce,
        ) {
            Ok(v) => Ok(QueryResponse::ContractCalls(v)),
            Err(e) => Err(e),
        },
        QueryMsg::FetchTempItem {} => match fetch_temp_state(state) {
            Ok(v) => Ok(QueryResponse::TempItem(v)),
            Err(e) => Err(e),
        },
        QueryMsg::FetchRecentOutboundNonce {} => match fetch_recent_out_bound_nonce(state) {
            Ok(n) => Ok(QueryResponse::RecentOutboundNonce(n)),
            Err(e) => Err(e),
        },
    }
}

} // verus!
