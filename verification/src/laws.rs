//! Properties of the contract that relate its operations to each other.
use vstd::prelude::*;

use crate::contract::{
    execute_outcome, query_answer, migrate_outcome, recorded_calls, reply_outcome, response_nonces, sudo_outcome, this_version,
    CREATE_OUTBOUND_REPLY_ID,
};
use crate::execution::{
    contracts_fit, delist_outcome, listed_entry, update_white_listed_outcome, white_list_outcome, white_listed_from,
};
use crate::handle_acknowledgement::ack_record;
use crate::handle_inbound::inbound_outcome;
use crate::msg::{ApplicationContract, ExecuteMsg, QueryMsg, QueryResponse};
use crate::query::{
    ack_data_read, contract_calls_read, recent_nonce_read, spec_ack_key, temp_state_read, white_listed_listing,
};
use crate::router::{OutboundBatchRequest, OutboundBatchRequestView, RouterMsgView, SudoMsg};
use crate::state::{white_listed_key, ContractStateView};
use crate::storage_key::{bytes_lt, lemma_bytes_lt_irreflexive, lemma_bytes_lt_total, lemma_bytes_lt_transitive};
use crate::key_order::law_storage_key_injective;
use crate::white_list::{lists_in_key_order, storage_key_of, white_list_key_fits, WhiteListedView};
use crate::text::{decimal, digit_char};
use crate::types::{generic_err, StdError, Env, Reply, ResponseView, StdErrorView, SubMsgResult};

verus! {

/// Whitelisting a contract as the owner succeeds, and afterwards the
/// contract is whitelisted; every other entry stays as it was.
pub proof fn law_white_list_then_listed(
    state: ContractStateView,
    sender: Seq<char>,
    chain_id: Seq<char>,
    chain_type: u32,
    contract_address: Seq<u8>,
)
    requires
        state.owner == Some(sender),
    ensures
        ({
            let (res, after) = white_list_outcome(state, sender, chain_id, chain_type, contract_address);
            let key = white_listed_key(contract_address, chain_id, chain_type);
            &&& res is Ok
            &&& after.white_listed.dom().contains(key)
            &&& after.white_listed[key] == listed_entry(contract_address, chain_id, chain_type)
            &&& forall|k: Seq<u8>|
                k != key ==> (#[trigger] after.white_listed.dom().contains(k) == state.white_listed.dom().contains(k)
                    && after.white_listed[k] == state.white_listed[k])
        }),
{
}

/// Delisting a contract as the owner succeeds, and afterwards the contract
/// is not whitelisted; every other entry stays as it was.
pub proof fn law_delist_then_not_listed(
    state: ContractStateView,
    sender: Seq<char>,
    chain_id: Seq<char>,
    chain_type: u32,
    contract_address: Seq<u8>,
)
    requires
        state.owner == Some(sender),
    ensures
        ({
            let (res, after) = delist_outcome(state, sender, chain_id, chain_type, contract_address);
            let key = white_listed_key(contract_address, chain_id, chain_type);
            &&& res is Ok
            &&& !after.white_listed.dom().contains(key)
            &&& forall|k: Seq<u8>|
                k != key ==> (#[trigger] after.white_listed.dom().contains(k) == state.white_listed.dom().contains(k)
                    && after.white_listed[k] == state.white_listed[k])
        }),
{
}

/// Delisting undoes whitelisting: whitelisting a contract that was not
/// whitelisted and then delisting it gives back the whitelist as it was.
pub proof fn law_delist_undoes_white_list(
    state: ContractStateView,
    sender: Seq<char>,
    chain_id: Seq<char>,
    chain_type: u32,
    contract_address: Seq<u8>,
)
    requires
        state.owner == Some(sender),
        !state.white_listed.dom().contains(white_listed_key(contract_address, chain_id, chain_type)),
    ensures
        ({
            let (_, listed) = white_list_outcome(state, sender, chain_id, chain_type, contract_address);
            let (_, delisted) = delist_outcome(listed, sender, chain_id, chain_type, contract_address);
            delisted == state
        }),
{
    let (_, listed) = white_list_outcome(state, sender, chain_id, chain_type, contract_address);
    let (_, delisted) = delist_outcome(listed, sender, chain_id, chain_type, contract_address);
    let key = white_listed_key(contract_address, chain_id, chain_type);
    assert(delisted.white_listed =~= state.white_listed);
}

/// Only the owner changes the whitelist: for any other sender, and before
/// any owner is recorded, each whitelist operation fails and leaves the state as it was.
pub proof fn law_only_owner_changes_white_list(
    state: ContractStateView,
    sender: Seq<char>,
    chain_id: Seq<char>,
    chain_type: u32,
    contract_address: Seq<u8>,
    contracts: Seq<ApplicationContract>,
)
    requires
        state.owner != Some(sender),
    ensures
        ({
            let e = match state.owner {
                Some(o) => generic_err("Unauthorised User"@),
                None => StdErrorView::NotFound { item: crate::types::StoredItem::Owner },
            };
            &&& white_list_outcome(state, sender, chain_id, chain_type, contract_address) == (
                Err::<ResponseView, StdErrorView>(e),
                state,
            )
            &&& delist_outcome(state, sender, chain_id, chain_type, contract_address) == (
                Err::<ResponseView, StdErrorView>(e),
                state,
            )
            &&& update_white_listed_outcome(state, sender, contracts) == (Err::<ResponseView, StdErrorView>(e), state)
        }),
{
}

/// A message from anyone but the owner, or before any owner is recorded, is
/// refused whatever it names, and the state stays as it was.
pub proof fn law_execute_refuses_non_owner(state: ContractStateView, sender: Seq<char>, msg: ExecuteMsg)
    requires
        state.owner != Some(sender),
    ensures
        execute_outcome(state, sender, msg).0 is Err,
        execute_outcome(state, sender, msg).1 == state,
{
}

/// Each message of `execute` has the result and the effect of the operation it names.
pub proof fn law_execute_dispatch(
    state: ContractStateView,
    sender: Seq<char>,
    chain_id: String,
    chain_type: u32,
    contract_address: Vec<u8>,
    contracts: Vec<ApplicationContract>,
)
    ensures
        execute_outcome(
            state,
            sender,
            (ExecuteMsg::WhiteListApplicationContract { chain_id, chain_type, contract_address }),
        ) == white_list_outcome(state, sender, chain_id@, chain_type, contract_address@),
        execute_outcome(state, sender, (ExecuteMsg::WhiteListApplicationContracts { contracts }))
            == update_white_listed_outcome(state, sender, contracts@),
        execute_outcome(
            state,
            sender,
            (ExecuteMsg::DelistApplicationContract { chain_id, chain_type, contract_address }),
        ) == delist_outcome(state, sender, chain_id@, chain_type, contract_address@),
{
}

/// Each message of `query` is answered with what the matching query
/// function gives on the same fields, its error passed on unchanged.
pub proof fn law_query_dispatch(
    state: ContractStateView,
    chain_id: String,
    chain_type: u32,
    contract_address: Vec<u8>,
    destination_chain_id: String,
    destination_chain_type: u64,
    outbound_batch_nonce: u64,
)
    ensures
        query_answer(
            state,
            (QueryMsg::IsWhiteListedContract { chain_id, chain_type, contract_address }),
            Ok(QueryResponse::IsWhiteListed(
                state.white_listed.dom().contains(white_listed_key(contract_address@, chain_id@, chain_type)),
            )),
        ),
        forall|r: Result<Vec<(Vec<u8>, String, u32)>, StdError>| #[trigger]
            white_listed_listing(state, r) ==> query_answer(
                state,
                (QueryMsg::FetchWhiteListedContract {}),
                match r {
                    Ok(v) => Ok::<QueryResponse, StdError>(QueryResponse::WhiteListedContracts(v)),
                    Err(e) => Err::<QueryResponse, StdError>(e),
                },
            ),
        forall|r: Result<String, StdError>| #[trigger]
            ack_data_read(state, destination_chain_id@, destination_chain_type as nat, outbound_batch_nonce as nat, r)
                ==> query_answer(
                state,
                (QueryMsg::FetchAckData { destination_chain_id, destination_chain_type, outbound_batch_nonce }),
                match r {
                    Ok(v) => Ok::<QueryResponse, StdError>(QueryResponse::AckData(v)),
                    Err(e) => Err::<QueryResponse, StdError>(e),
                },
            ),
        forall|r: Result<OutboundBatchRequest, StdError>| #[trigger]
            contract_calls_read(
                state,
                destination_chain_id@,
                destination_chain_type as nat,
                outbound_batch_nonce as nat,
                r,
            ) ==> query_answer(
                state,
                (QueryMsg::FetchContractCalls { destination_chain_id, destination_chain_type, outbound_batch_nonce }),
                match r {
                    Ok(v) => Ok::<QueryResponse, StdError>(QueryResponse::ContractCalls(v)),
                    Err(e) => Err::<QueryResponse, StdError>(e),
                },
            ),
        forall|r: Result<Vec<OutboundBatchRequest>, StdError>| #[trigger]
            temp_state_read(state, r) ==> query_answer(
                state,
                (QueryMsg::FetchTempItem {}),
                match r {
                    Ok(v) => Ok::<QueryResponse, StdError>(QueryResponse::TempItem(v)),
                    Err(e) => Err::<QueryResponse, StdError>(e),
                },
            ),
        forall|r: Result<u64, StdError>| #[trigger]
            recent_nonce_read(state, r) ==> query_answer(
                state,
                (QueryMsg::FetchRecentOutboundNonce {}),
                match r {
                    Ok(v) => Ok::<QueryResponse, StdError>(QueryResponse::RecentOutboundNonce(v)),
                    Err(e) => Err::<QueryResponse, StdError>(e),
                },
            ),
{
}

/// The whitelist that a list of contracts makes holds exactly the storage
/// keys of those contracts, each with the last contract of the list that has that key.
pub proof fn law_white_listed_from_contracts(contracts: Seq<ApplicationContract>)
    ensures
        forall|k: Seq<u8>| #[trigger]
            white_listed_from(contracts).dom().contains(k) <==> exists|i: int|
                0 <= i < contracts.len() && white_listed_key(
                    contracts[i].contract_address@,
                    contracts[i].chain_id@,
                    contracts[i].chain_type,
                ) == k,
        forall|i: int|
            0 <= i < contracts.len() && (forall|j: int|
                i < j < contracts.len() ==> white_listed_key(
                    contracts[j].contract_address@,
                    contracts[j].chain_id@,
                    contracts[j].chain_type,
                ) != white_listed_key(
                    contracts[i].contract_address@,
                    contracts[i].chain_id@,
                    contracts[i].chain_type,
                )) ==> white_listed_from(contracts)[white_listed_key(
                contracts[i].contract_address@,
                contracts[i].chain_id@,
                contracts[i].chain_type,
            )] == listed_entry(#[trigger] contracts[i].contract_address@, contracts[i].chain_id@, contracts[i].chain_type),
    decreases contracts.len(),
{
    if contracts.len() > 0 {
        let init = contracts.drop_last();
        law_white_listed_from_contracts(init);
        let n = contracts.len() - 1;
        assert forall|k: Seq<u8>| #[trigger]
            white_listed_from(contracts).dom().contains(k) <==> exists|i: int|
                0 <= i < contracts.len() && white_listed_key(
                    contracts[i].contract_address@,
                    contracts[i].chain_id@,
                    contracts[i].chain_type,
                ) == k by {
            if white_listed_from(init).dom().contains(k) {
                let i = choose|i: int|
                    0 <= i < init.len() && white_listed_key(init[i].contract_address@, init[i].chain_id@, init[i].chain_type)
                        == k;
                assert(contracts[i] == init[i]);
            }
            if exists|i: int|
                0 <= i < contracts.len() && white_listed_key(
                    contracts[i].contract_address@,
                    contracts[i].chain_id@,
                    contracts[i].chain_type,
                ) == k {
                let i = choose|i: int|
                    0 <= i < contracts.len() && white_listed_key(
                        contracts[i].contract_address@,
                        contracts[i].chain_id@,
                        contracts[i].chain_type,
                    ) == k;
                if i < n {
                    assert(init[i] == contracts[i]);
                }
            }
        }
        assert forall|i: int|
            0 <= i < contracts.len() && (forall|j: int|
                i < j < contracts.len() ==> white_listed_key(
                    contracts[j].contract_address@,
                    contracts[j].chain_id@,
                    contracts[j].chain_type,
                ) != white_listed_key(
                    contracts[i].contract_address@,
                    contracts[i].chain_id@,
                    contracts[i].chain_type,
                )) implies white_listed_from(contracts)[white_listed_key(
            contracts[i].contract_address@,
            contracts[i].chain_id@,
            contracts[i].chain_type,
        )] == listed_entry(#[trigger] contracts[i].contract_address@, contracts[i].chain_id@, contracts[i].chain_type) by {
            if i < n {
                assert(init[i] == contracts[i]);
                assert forall|j: int| i < j < init.len() implies white_listed_key(
                    init[j].contract_address@,
                    init[j].chain_id@,
                    init[j].chain_type,
                ) != white_listed_key(init[i].contract_address@, init[i].chain_id@, init[i].chain_type) by {
                    assert(init[j] == contracts[j]);
                }
            }
        }
    }
}

/// Replacing the whitelist as the owner leaves exactly the given contracts
/// whitelisted and changes nothing else.
pub proof fn law_update_replaces_white_list(
    state: ContractStateView,
    sender: Seq<char>,
    contracts: Seq<ApplicationContract>,
)
    requires
        state.owner == Some(sender),
    ensures
        ({
            let (res, after) = update_white_listed_outcome(state, sender, contracts);
            &&& res is Ok
            &&& forall|k: Seq<u8>| #[trigger]
                after.white_listed.dom().contains(k) <==> exists|i: int|
                    0 <= i < contracts.len() && white_listed_key(
                        contracts[i].contract_address@,
                        contracts[i].chain_id@,
                        contracts[i].chain_type,
                    ) == k
            &&& after == ContractStateView { white_listed: after.white_listed, ..state }
        }),
{
    law_white_listed_from_contracts(contracts);
}

/// The entry of a contract of the list.
pub open spec fn contract_entry(c: ApplicationContract) -> WhiteListedView {
    listed_entry(c.contract_address@, c.chain_id@, c.chain_type)
}

proof fn lemma_white_listed_from_values(contracts: Seq<ApplicationContract>)
    ensures
        forall|k: Seq<u8>| #[trigger]
            white_listed_from(contracts).dom().contains(k) ==> exists|i: int|
                0 <= i < contracts.len() && storage_key_of(contract_entry(contracts[i])) == k
                    && white_listed_from(contracts)[k] == contract_entry(contracts[i]),
    decreases contracts.len(),
{
    if contracts.len() > 0 {
        let init = contracts.drop_last();
        let n = contracts.len() - 1;
        lemma_white_listed_from_values(init);
        assert forall|k: Seq<u8>| #[trigger] white_listed_from(contracts).dom().contains(k) implies exists|i: int|
            0 <= i < contracts.len() && storage_key_of(contract_entry(contracts[i])) == k
                && white_listed_from(contracts)[k] == contract_entry(contracts[i]) by {
            if k == storage_key_of(contract_entry(contracts[n])) {
                assert(white_listed_from(contracts)[k] == contract_entry(contracts[n]));
            } else {
                let i = choose|i: int|
                    0 <= i < init.len() && storage_key_of(contract_entry(init[i])) == k && white_listed_from(init)[k]
                        == contract_entry(init[i]);
                assert(init[i] == contracts[i]);
            }
        }
    }
}

/// After the owner replaces the whitelist with contracts that fit the
/// storage key format, the whitelist listing holds exactly the given
/// contracts' (address, chain id, chain type): those before are gone.
pub proof fn law_update_lists_given_contracts(
    state: ContractStateView,
    sender: Seq<char>,
    contracts: Seq<ApplicationContract>,
    listing: Seq<WhiteListedView>,
)
    requires
        state.owner == Some(sender),
        contracts_fit(contracts),
        lists_in_key_order(update_white_listed_outcome(state, sender, contracts).1.white_listed, listing),
    ensures
        forall|w: WhiteListedView|
            #![trigger listing.contains(w)]
            listing.contains(w) <==> exists|i: int| 0 <= i < contracts.len() && contract_entry(contracts[i]) == w,
{
    let m = white_listed_from(contracts);
    law_white_listed_from_contracts(contracts);
    lemma_white_listed_from_values(contracts);
    assert forall|w: WhiteListedView|
        #![trigger listing.contains(w)]
        listing.contains(w) <==> exists|i: int| 0 <= i < contracts.len() && contract_entry(contracts[i]) == w by {
        if listing.contains(w) {
            let idx = choose|idx: int| 0 <= idx < listing.len() && listing[idx] == w;
            let k = storage_key_of(listing[idx]);
            assert(m.dom().contains(k));
            let i = choose|i: int|
                0 <= i < contracts.len() && storage_key_of(contract_entry(contracts[i])) == k && m[k] == contract_entry(
                    contracts[i],
                );
            assert(contract_entry(contracts[i]) == w);
        }
        if exists|i: int| 0 <= i < contracts.len() && contract_entry(contracts[i]) == w {
            let i = choose|i: int| 0 <= i < contracts.len() && contract_entry(contracts[i]) == w;
            let k = storage_key_of(w);
            assert(white_listed_key(contracts[i].contract_address@, contracts[i].chain_id@, contracts[i].chain_type)
                == k);
            assert(m.dom().contains(k));
            let j = choose|j: int|
                0 <= j < contracts.len() && storage_key_of(contract_entry(contracts[j])) == k && m[k] == contract_entry(
                    contracts[j],
                );
            assert(contracts_fit(contracts));
            assert(white_list_key_fits((contracts[i]).contract_address@, contracts[i].chain_id@));
            assert(white_list_key_fits((contracts[j]).contract_address@, contracts[j].chain_id@));
            law_storage_key_injective(contract_entry(contracts[i]), contract_entry(contracts[j]));
            let idx = choose|idx: int| 0 <= idx < listing.len() && storage_key_of(listing[idx]) == k;
            assert(listing[idx] == w);
        }
    }
}

/// Replacing the whitelist twice with the same contracts leaves what the
/// first replacement left, and the listing is the same after both.
pub proof fn law_update_twice_same(
    state: ContractStateView,
    sender: Seq<char>,
    contracts: Seq<ApplicationContract>,
    first: Seq<WhiteListedView>,
    second: Seq<WhiteListedView>,
)
    requires
        state.owner == Some(sender),
        lists_in_key_order(update_white_listed_outcome(state, sender, contracts).1.white_listed, first),
        lists_in_key_order(
            update_white_listed_outcome(update_white_listed_outcome(state, sender, contracts).1, sender, contracts).1.white_listed,
            second,
        ),
    ensures
        ({
            let after = update_white_listed_outcome(state, sender, contracts).1;
            &&& update_white_listed_outcome(after, sender, contracts).0 is Ok
            &&& update_white_listed_outcome(after, sender, contracts).1 == after
        }),
        first == second,
{
    let after = update_white_listed_outcome(state, sender, contracts).1;
    assert(update_white_listed_outcome(after, sender, contracts).1 == after);
    law_listing_is_unique(after.white_listed, first, second);
}

/// An acknowledgement is read back under its destination chain id, chain
/// type and batch nonce: the record the acknowledgement made.
pub proof fn law_ack_read_after_write(
    state: ContractStateView,
    env: Env,
    outbound_tx_requested_by: String,
    destination_chain_type: u32,
    destination_chain_id: String,
    outbound_batch_nonce: u64,
    contract_ack_responses: Vec<bool>,
    execution_code: u64,
    execution_status: bool,
)
    ensures
        ({
            let msg = SudoMsg::HandleOutboundAck {
                outbound_tx_requested_by,
                destination_chain_type,
                destination_chain_id,
                outbound_batch_nonce,
                contract_ack_responses,
                execution_code,
                execution_status,
            };
            let (res, after) = sudo_outcome(state, env, msg);
            let key = spec_ack_key(
                destination_chain_id@,
                (destination_chain_type as u64) as nat,
                outbound_batch_nonce as nat,
            );
            &&& res matches Some(Ok(_))
            &&& after.ack_status.dom().contains(key)
            &&& after.ack_status[key] == ack_record(execution_code, execution_status, contract_ack_responses@)
        }),
{
}

/// An inbound request that succeeds keeps exactly the outbound batch
/// requests it asks the Router chain to send; one that fails or aborts stores nothing.
pub proof fn law_inbound_keeps_what_it_sends(
    state: ContractStateView,
    block_time_nanos: u64,
    sender: Seq<char>,
    src_chain_type: u32,
    src_chain_id: Seq<char>,
    payload: Seq<u8>,
)
    ensures
        ({
            let (res, after) = inbound_outcome(state, block_time_nanos, sender, src_chain_type, src_chain_id, payload);
            match res {
                Some(Ok(r)) => {
                    &&& r.messages.len() == 1
                    &&& r.messages[0].id == CREATE_OUTBOUND_REPLY_ID
                    &&& r.messages[0].msg matches RouterMsgView::OutboundBatchRequests { outbound_batch_requests }
                        && after.temp_outbound_requests == Some(outbound_batch_requests)
                    &&& after == ContractStateView { temp_outbound_requests: after.temp_outbound_requests, ..state }
                },
                _ => after == state,
            }
        }),
{
}

proof fn lemma_recorded_untouched(
    calls: Map<Seq<char>, OutboundBatchRequestView>,
    requests: Seq<OutboundBatchRequestView>,
    nonces: Seq<u64>,
    k: Seq<char>,
)
    requires
        forall|i: int|
            0 <= i < nonces.len() ==> spec_ack_key(
                requests[i].destination_chain_id,
                requests[i].destination_chain_type as nat,
                #[trigger] nonces[i] as nat,
            ) != k,
    ensures
        recorded_calls(calls, requests, nonces).dom().contains(k) == calls.dom().contains(k),
        recorded_calls(calls, requests, nonces)[k] == calls[k],
    decreases nonces.len(),
{
    if nonces.len() > 0 {
        let init = nonces.drop_last();
        let n = nonces.len() - 1;
        assert forall|i: int| 0 <= i < init.len() implies spec_ack_key(
            requests[i].destination_chain_id,
            requests[i].destination_chain_type as nat,
            #[trigger] init[i] as nat,
        ) != k by {
            assert(init[i] == nonces[i]);
        }
        lemma_recorded_untouched(calls, requests, init, k);
        let key_n = spec_ack_key(requests[n].destination_chain_id, requests[n].destination_chain_type as nat, nonces[n] as nat);
        assert(key_n != k);
    }
}

/// A reply records each waiting request under its destination and the nonce
/// that the Router chain gave it (the last one wins where two keys meet),
/// leaves every other recorded request as it was, and makes the last nonce
/// the most recent one.
pub proof fn law_reply_records_requests(
    calls: Map<Seq<char>, OutboundBatchRequestView>,
    requests: Seq<OutboundBatchRequestView>,
    nonces: Seq<u64>,
)
    ensures
        forall|i: int|
            0 <= i < nonces.len() && (forall|j: int|
                i < j < nonces.len() ==> spec_ack_key(
                    requests[j].destination_chain_id,
                    requests[j].destination_chain_type as nat,
                    nonces[j] as nat,
                ) != spec_ack_key(
                    requests[i].destination_chain_id,
                    requests[i].destination_chain_type as nat,
                    nonces[i] as nat,
                )) ==> {
                let key = spec_ack_key(
                    requests[i].destination_chain_id,
                    requests[i].destination_chain_type as nat,
                    #[trigger] nonces[i] as nat,
                );
                recorded_calls(calls, requests, nonces).dom().contains(key)
                    && recorded_calls(calls, requests, nonces)[key] == requests[i]
            },
        forall|k: Seq<char>|
            (forall|i: int|
                0 <= i < nonces.len() ==> spec_ack_key(
                    requests[i].destination_chain_id,
                    requests[i].destination_chain_type as nat,
                    #[trigger] nonces[i] as nat,
                ) != k) ==> (#[trigger] recorded_calls(calls, requests, nonces).dom().contains(k)
                == calls.dom().contains(k) && recorded_calls(calls, requests, nonces)[k] == calls[k]),
    decreases nonces.len(),
{
    if nonces.len() > 0 {
        let init = nonces.drop_last();
        law_reply_records_requests(calls, requests, init);
        let n = nonces.len() - 1;
        assert forall|i: int|
            0 <= i < nonces.len() && (forall|j: int|
                i < j < nonces.len() ==> spec_ack_key(
                    requests[j].destination_chain_id,
                    requests[j].destination_chain_type as nat,
                    nonces[j] as nat,
                ) != spec_ack_key(
                    requests[i].destination_chain_id,
                    requests[i].destination_chain_type as nat,
                    nonces[i] as nat,
                )) implies {
            let key = spec_ack_key(
                requests[i].destination_chain_id,
                requests[i].destination_chain_type as nat,
                #[trigger] nonces[i] as nat,
            );
            recorded_calls(calls, requests, nonces).dom().contains(key) && recorded_calls(calls, requests, nonces)[key]
                == requests[i]
        } by {
            if i < n {
                assert(init[i] == nonces[i]);
                assert forall|j: int| i < j < init.len() implies spec_ack_key(
                    requests[j].destination_chain_id,
                    requests[j].destination_chain_type as nat,
                    init[j] as nat,
                ) != spec_ack_key(
                    requests[i].destination_chain_id,
                    requests[i].destination_chain_type as nat,
                    init[i] as nat,
                ) by {
                    assert(init[j] == nonces[j]);
                }
            }
        }
        assert forall|k: Seq<char>|
            (forall|i: int|
                0 <= i < nonces.len() ==> spec_ack_key(
                    requests[i].destination_chain_id,
                    requests[i].destination_chain_type as nat,
                    #[trigger] nonces[i] as nat,
                ) != k) implies (#[trigger] recorded_calls(calls, requests, nonces).dom().contains(k)
            == calls.dom().contains(k) && recorded_calls(calls, requests, nonces)[k] == calls[k]) by {
            lemma_recorded_untouched(calls, requests, nonces, k);
        }
    }
}

/// After an inbound request succeeds, the reply that gives its one request a
/// nonce makes the request readable under its destination and that nonce,
/// and makes the nonce the most recent one.
pub proof fn law_inbound_then_reply(
    state: ContractStateView,
    block_time_nanos: u64,
    sender: Seq<char>,
    src_chain_type: u32,
    src_chain_id: Seq<char>,
    payload: Seq<u8>,
    reply: Reply,
)
    requires
        inbound_outcome(state, block_time_nanos, sender, src_chain_type, src_chain_id, payload).0 matches Some(Ok(_)),
        reply.id == CREATE_OUTBOUND_REPLY_ID,
        reply.result matches SubMsgResult::Success(r) && r.data matches Some(d)
            && d.outbound_batch_responses@.len() == 1,
    ensures
        ({
            let sent = inbound_outcome(state, block_time_nanos, sender, src_chain_type, src_chain_id, payload).1;
            let request = sent.temp_outbound_requests.unwrap()[0];
            let (res, after) = reply_outcome(sent, reply);
            let nonce = match reply.result {
                SubMsgResult::Success(r) => r.data.unwrap().outbound_batch_responses@[0].outbound_batch_nonce,
                _ => 0,
            };
            let key = spec_ack_key(request.destination_chain_id, request.destination_chain_type as nat, nonce as nat);
            &&& res is Ok
            &&& after.last_outbound_nonce == Some(nonce)
            &&& after.outbound_calls.dom().contains(key)
            &&& after.outbound_calls[key] == request
        }),
{
    let sent = inbound_outcome(state, block_time_nanos, sender, src_chain_type, src_chain_id, payload).1;
    let t = sent.temp_outbound_requests.unwrap();
    if let SubMsgResult::Success(r) = reply.result {
        let nonces = response_nonces(r.data.unwrap().outbound_batch_responses@);
        assert(nonces.drop_last() =~= Seq::<u64>::empty());
        assert(recorded_calls(sent.outbound_calls, t, nonces) == recorded_calls(
            sent.outbound_calls,
            t,
            nonces.drop_last(),
        ).insert(
            spec_ack_key(t[0].destination_chain_id, t[0].destination_chain_type as nat, nonces[0] as nat),
            t[0],
        ));
    }
}

/// Migration moves only from an older version of the same contract: right
/// after set-up, when the recorded version is this one, it is refused and
/// nothing changes.
pub proof fn law_no_migration_to_same_version(state: ContractStateView)
    requires
        state.contract_version == Some(this_version()),
    ensures
        migrate_outcome(state) == (
            Err::<ResponseView, StdErrorView>(generic_err("Cannot upgrade from a newer version"@)),
            state,
        ),
{
    lemma_bytes_lt_irreflexive(vstd::utf8::encode_utf8(this_version().version));
}

/// Every failed or aborted call leaves the state as it was.
pub proof fn law_failures_change_nothing(state: ContractStateView, env: Env, msg: SudoMsg, reply: Reply)
    ensures
        !(sudo_outcome(state, env, msg).0 matches Some(Ok(_))) ==> sudo_outcome(state, env, msg).1 == state,
        reply_outcome(state, reply).0 is Err ==> reply_outcome(state, reply).1 == state,
        migrate_outcome(state).0 is Err ==> migrate_outcome(state).1 == state,
{
}

proof fn lemma_key_order_strict(s: Seq<WhiteListedView>, m: Map<Seq<u8>, WhiteListedView>, i: int, j: int)
    requires
        lists_in_key_order(m, s),
        0 <= i < s.len(),
        0 <= j < s.len(),
        i != j,
    ensures
        storage_key_of(s[i]) != storage_key_of(s[j]),
{
    if storage_key_of(s[i]) == storage_key_of(s[j]) {
        lemma_bytes_lt_irreflexive(storage_key_of(s[i]));
        if i < j {
            assert(bytes_lt(storage_key_of(s[i]), storage_key_of(s[j])));
        } else {
            assert(bytes_lt(storage_key_of(s[j]), storage_key_of(s[i])));
        }
    }
}

proof fn lemma_listings_agree_at(m: Map<Seq<u8>, WhiteListedView>, s1: Seq<WhiteListedView>, s2: Seq<WhiteListedView>, i: int)
    requires
        lists_in_key_order(m, s1),
        lists_in_key_order(m, s2),
        0 <= i < s1.len(),
        i < s2.len(),
        forall|j: int| 0 <= j < i ==> storage_key_of(#[trigger] s1[j]) == storage_key_of(s2[j]),
    ensures
        storage_key_of(s1[i]) == storage_key_of(s2[i]),
{
    let a = storage_key_of(s1[i]);
    let b = storage_key_of(s2[i]);
    if a != b {
        lemma_bytes_lt_total(a, b);
        if bytes_lt(a, b) {
            assert(m.dom().contains(a));
            let j = choose|j: int| 0 <= j < s2.len() && storage_key_of(s2[j]) == a;
            if j < i {
                assert(storage_key_of(s1[j]) == a);
                lemma_key_order_strict(s1, m, j, i);
            } else if j > i {
                assert(bytes_lt(b, storage_key_of(s2[j])));
                lemma_bytes_lt_transitive(a, b, a);
                lemma_bytes_lt_irreflexive(a);
            }
        } else {
            assert(m.dom().contains(b));
            let j = choose|j: int| 0 <= j < s1.len() && storage_key_of(s1[j]) == b;
            if j < i {
                assert(storage_key_of(s2[j]) == b);
                lemma_key_order_strict(s2, m, j, i);
            } else if j > i {
                assert(bytes_lt(a, storage_key_of(s1[j])));
                lemma_bytes_lt_transitive(b, a, b);
                lemma_bytes_lt_irreflexive(b);
            }
        }
    }
}

proof fn lemma_listings_agree_upto(m: Map<Seq<u8>, WhiteListedView>, s1: Seq<WhiteListedView>, s2: Seq<WhiteListedView>, n: int)
    requires
        lists_in_key_order(m, s1),
        lists_in_key_order(m, s2),
        0 <= n <= s1.len(),
        n <= s2.len(),
    ensures
        forall|j: int| 0 <= j < n ==> storage_key_of(#[trigger] s1[j]) == storage_key_of(s2[j]),
    decreases n,
{
    if n > 0 {
        lemma_listings_agree_upto(m, s1, s2, n - 1);
        lemma_listings_agree_at(m, s1, s2, n - 1);
    }
}

proof fn lemma_listing_not_longer(m: Map<Seq<u8>, WhiteListedView>, s1: Seq<WhiteListedView>, s2: Seq<WhiteListedView>)
    requires
        lists_in_key_order(m, s1),
        lists_in_key_order(m, s2),
        s2.len() <= s1.len(),
        forall|j: int| 0 <= j < s2.len() ==> storage_key_of(#[trigger] s1[j]) == storage_key_of(s2[j]),
    ensures
        s1.len() == s2.len(),
{
    if s1.len() > s2.len() {
        let k = storage_key_of(s1[s2.len() as int]);
        assert(m.dom().contains(k));
        let j = choose|j: int| 0 <= j < s2.len() && storage_key_of(s2[j]) == k;
        assert(storage_key_of(s1[j]) == k);
        lemma_key_order_strict(s1, m, j, s2.len() as int);
    }
}

/// The whitelist listing is determined by the whitelist: two lists that
/// each give every whitelisted contract once, in ascending order of storage
/// key, are the same list.
pub proof fn law_listing_is_unique(m: Map<Seq<u8>, WhiteListedView>, s1: Seq<WhiteListedView>, s2: Seq<WhiteListedView>)
    requires
        lists_in_key_order(m, s1),
        lists_in_key_order(m, s2),
    ensures
        s1 == s2,
{
    if s1.len() <= s2.len() {
        lemma_listings_agree_upto(m, s1, s2, s1.len() as int);
        assert forall|j: int| 0 <= j < s1.len() implies storage_key_of(#[trigger] s2[j]) == storage_key_of(s1[j]) by {}
        lemma_listing_not_longer(m, s2, s1);
    } else {
        lemma_listings_agree_upto(m, s1, s2, s2.len() as int);
        lemma_listing_not_longer(m, s1, s2);
    }
    assert forall|j: int| 0 <= j < s1.len() implies s1[j] == s2[j] by {
        assert(m[storage_key_of(s1[j])] == s1[j]);
        assert(m[storage_key_of(s2[j])] == s2[j]);
    }
    assert(s1 =~= s2);
}

proof fn lemma_decimal_len(n: nat)
    ensures
        decimal(n).len() >= 1,
        decimal(n).len() == 1 <==> n < 10,
    decreases n,
{
    if n >= 10 {
        lemma_decimal_len(n / 10);
    }
}

proof fn lemma_digit_char_injective(a: nat, b: nat)
    requires
        a < 10,
        b < 10,
        digit_char(a) == digit_char(b),
    ensures
        a == b,
{
    assert((digit_char(a) as u32) == 48 + a);
    assert((digit_char(b) as u32) == 48 + b);
}

/// Different numbers have different decimal renderings.
pub proof fn law_decimal_injective(a: nat, b: nat)
    requires
        decimal(a) == decimal(b),
    ensures
        a == b,
    decreases a,
{
    lemma_decimal_len(a);
    lemma_decimal_len(b);
    if a < 10 {
        assert(b < 10);
        assert(decimal(a) == seq![digit_char(a)]);
        assert(decimal(b) == seq![digit_char(b)]);
        assert(seq![digit_char(a)][0] == digit_char(a));
        assert(seq![digit_char(b)][0] == digit_char(b));
        assert(digit_char(a) == digit_char(b));
        lemma_digit_char_injective(a, b);
    } else {
        let da = decimal(a);
        let db = decimal(b);
        assert(da.last() == db.last());
        assert(da.drop_last() =~= decimal(a / 10));
        assert(db.drop_last() =~= decimal(b / 10));
        lemma_digit_char_injective(a % 10, b % 10);
        law_decimal_injective(a / 10, b / 10);
    }
}

/// Acknowledgements and recorded requests of one destination chain and
/// chain type are kept apart by nonce: different nonces give different keys.
pub proof fn law_ack_keys_apart_by_nonce(chain_id: Seq<char>, chain_type: nat, n1: nat, n2: nat)
    requires
        n1 != n2,
    ensures
        spec_ack_key(chain_id, chain_type, n1) != spec_ack_key(chain_id, chain_type, n2),
{
    if spec_ack_key(chain_id, chain_type, n1) == spec_ack_key(chain_id, chain_type, n2) {
        let p = chain_id + decimal(chain_type);
        let k1 = spec_ack_key(chain_id, chain_type, n1);
        assert(k1.skip(p.len() as int) =~= decimal(n1));
        assert(spec_ack_key(chain_id, chain_type, n2).skip(p.len() as int) =~= decimal(n2));
        law_decimal_injective(n1, n2);
    }
}

} // verus!
