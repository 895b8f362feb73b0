//! The owner's operations on the whitelist.
use vstd::prelude::*;

use crate::msg::ApplicationContract;
use crate::query::fetch_white_listed_contract;
use crate::state::{white_listed_key, ContractState, ContractStateView};
use crate::text::{decimal, hex_encode, hex_lower, u64_to_decimal};
use crate::types::{
    attr, attributes_response, empty_response, generic_err, lit, result_view, Env, MessageInfo, Response,
    ResponseView, StdError, StdErrorView, StoredItem,
};
use crate::white_list::{listed_view, storage_key_of, white_list_key_fits, WhiteListedView};

verus! {

/// Why the sender may not change the whitelist, if it may not: no owner is
/// stored, or the sender is not the owner.
pub open spec fn owner_check(state: ContractStateView, sender: Seq<char>) -> Option<StdErrorView> {
    match state.owner {
        None => Some(StdErrorView::NotFound { item: StoredItem::Owner }),
        Some(o) => if o != sender {
            Some(generic_err("Unauthorised User"@))
        } else {
            None
        },
    }
}

fn check_owner(state: &ContractState, info: &MessageInfo) -> (res: Result<(), StdError>)
    ensures
        match owner_check(state@, info.sender@) {
            Some(e) => res matches Err(x) && x@ == e,
            None => res is Ok,
        },
{
    match state.load_owner() {
        Ok(owner) => {
            if !(owner == info.sender) {
                return Err(StdError::GenericErr { msg: lit("Unauthorised User") });
            }
            Ok(())
        },
        Err(err) => Err(err),
    }
}

/// The whitelist entry of a contract.
pub open spec fn listed_entry(contract_address: Seq<u8>, chain_id: Seq<char>, chain_type: u32) -> WhiteListedView {
    WhiteListedView { contract_address, chain_id, chain_type }
}

/// What whitelisting a contract answers, and the state it leaves.
pub open spec fn white_list_outcome(
    state: ContractStateView,
    sender: Seq<char>,
    chain_id: Seq<char>,
    chain_type: u32,
    contract_address: Seq<u8>,
) -> (Result<ResponseView, StdErrorView>, ContractStateView) {
    match owner_check(state, sender) {
        Some(e) => (Err(e), state),
        None => (
            Ok(attributes_response(
                seq![
                    attr("chain_id"@, chain_id),
                    attr("chain_type"@, decimal(chain_type as nat)),
                    attr("application"@, hex_lower(contract_address)),
                ],
            )),
            ContractStateView {
                white_listed: state.white_listed.insert(
                    white_listed_key(contract_address, chain_id, chain_type),
                    listed_entry(contract_address, chain_id, chain_type),
                ),
                ..state
            },
        ),
    }
}

/// Whitelists a contract, if the sender is the owner.
pub fn white_list_application_contract(
    state: &mut ContractState,
    env: &Env,
    info: &MessageInfo,
    chain_id: String,
    chain_type: u32,
    contract_address: Vec<u8>,
) -> (res: Result<Response, StdError>)
    requires
        old(state).wf(),
        old(state)@.owner == Some(info.sender@) ==> white_list_key_fits(contract_address@, chain_id@),
    ensures
        final(state).wf(),
        (result_view(res), final(state)@) == white_list_outcome(
            old(state)@,
            info.sender@,
            chain_id@,
            chain_type,
            contract_address@,
        ),
{
    check_owner(state, info)?;
    let address = contract_address.clone();
    assert(address@ =~= contract_address@);
    state.save_white_listed(address, chain_id.clone(), chain_type);
    let ghost c = chain_id@;
    let res = Response::new()
        .add_attribute(lit("chain_id"), chain_id)
        .add_attribute(lit("chain_type"), u64_to_decimal(chain_type as u64))
        .add_attribute(lit("application"), hex_encode(&contract_address));
    assert(res@.attributes =~= seq![
        attr("chain_id"@, c),
        attr("chain_type"@, decimal(chain_type as nat)),
        attr("application"@, hex_lower(contract_address@)),
    ]);
    Ok(res)
}

/// What delisting a contract answers, and the state it leaves.
pub open spec fn delist_outcome(
    state: ContractStateView,
    sender: Seq<char>,
    chain_id: Seq<char>,
    chain_type: u32,
    contract_address: Seq<u8>,
) -> (Result<ResponseView, StdErrorView>, ContractStateView) {
    match owner_check(state, sender) {
        Some(e) => (Err(e), state),
        None => (
            Ok(attributes_response(
                seq![
                    attr("chain_id"@, chain_id),
                    attr("chain_type"@, decimal(chain_type as nat)),
                    attr("bridge_address"@, hex_lower(contract_address)),
                ],
            )),
            ContractStateView {
                white_listed: state.white_listed.remove(white_listed_key(contract_address, chain_id, chain_type)),
                ..state
            },
        ),
    }
}

/// Removes a contract from the whitelist, if the sender is the owner.
pub fn delist_application_contract(
    state: &mut ContractState,
    env: &Env,
    info: &MessageInfo,
    chain_id: String,
    chain_type: u32,
    contract_address: Vec<u8>,
) -> (res: Result<Response, StdError>)
    requires
        old(state).wf(),
        old(state)@.owner == Some(info.sender@) ==> white_list_key_fits(contract_address@, chain_id@),
    ensures
        final(state).wf(),
        (result_view(res), final(state)@) == delist_outcome(
            old(state)@,
            info.sender@,
            chain_id@,
            chain_type,
            contract_address@,
        ),
{
    check_owner(state, info)?;
    state.remove_white_listed(&contract_address, &chain_id, chain_type);
    let ghost c = chain_id@;
    let res = Response::new()
        .add_attribute(lit("chain_id"), chain_id)
        .add_attribute(lit("chain_type"), u64_to_decimal(chain_type as u64))
        .add_attribute(lit("bridge_address"), hex_encode(&contract_address));
    assert(res@.attributes =~= seq![
        attr("chain_id"@, c),
        attr("chain_type"@, decimal(chain_type as nat)),
        attr("bridge_address"@, hex_lower(contract_address@)),
    ]);
    Ok(res)
}

/// Every contract of the list fits the storage key format.
pub open spec fn contracts_fit(contracts: Seq<ApplicationContract>) -> bool {
    forall|i: int| 0 <= i < contracts.len() ==> white_list_key_fits(
        (#[trigger] contracts[i]).contract_address@,
        contracts[i].chain_id@,
    )
}

/// The whitelist that saving the contracts one after another into an empty one makes.
pub open spec fn white_listed_from(contracts: Seq<ApplicationContract>) -> Map<Seq<u8>, WhiteListedView>
    decreases contracts.len(),
{
    if contracts.len() == 0 {
        Map::empty()
    } else {
        let c = contracts.last();
        white_listed_from(contracts.drop_last()).insert(
            white_listed_key(c.contract_address@, c.chain_id@, c.chain_type),
            listed_entry(c.contract_address@, c.chain_id@, c.chain_type),
        )
    }
}

/// What replacing the whitelist answers, and the state it leaves.
pub open spec fn update_white_listed_outcome(
    state: ContractStateView,
    sender: Seq<char>,
    contracts: Seq<ApplicationContract>,
) -> (Result<ResponseView, StdErrorView>, ContractStateView) {
    match owner_check(state, sender) {
        Some(e) => (Err(e), state),
        None => (Ok(empty_response()), ContractStateView { white_listed: white_listed_from(contracts), ..state }),
    }
}

/// Replaces the whole whitelist with the given contracts, if the sender is the owner.
pub fn update_white_listed_application_contracts(
    state: &mut ContractState,
    env: &Env,
    info: &MessageInfo,
    contracts: Vec<ApplicationContract>,
) -> (res: Result<Response, StdError>)
    requires
        old(state).wf(),
        old(state)@.owner == Some(info.sender@) ==> contracts_fit(contracts@),
    ensures
        final(state).wf(),
        (result_view(res), final(state)@) == update_white_listed_outcome(old(state)@, info.sender@, contracts@),
{
    check_owner(state, info)?;
    let ghost s0 = state@;
    let keys = match fetch_white_listed_contract(state) {
        Ok(keys) => keys,
        Err(err) => return Err(err),
    };
    proof {
        state.lemma_white_listed_keys();
    }
    let ghost kv = keys@.map_values(|t: (Vec<u8>, String, u32)| listed_view(t));
    let n = keys.len();
    for i in 0..n
        invariant
            n == keys@.len(),
            kv == keys@.map_values(|t: (Vec<u8>, String, u32)| listed_view(t)),
            state.wf(),
            forall|j: int| 0 <= j < n ==> s0.white_listed.dom().contains(storage_key_of(#[trigger] kv[j])) && s0.white_listed[storage_key_of(kv[j])] == kv[j],
            forall|k: Seq<u8>| #[trigger] s0.white_listed.dom().contains(k) ==> exists|j: int| 0 <= j < n && storage_key_of(kv[j]) == k,
            forall|k: Seq<u8>| #[trigger] s0.white_listed.dom().contains(k) ==> white_list_key_fits(
                s0.white_listed[k].contract_address,
                s0.white_listed[k].chain_id,
            ),
            forall|k: Seq<u8>| #[trigger]
                state@.white_listed.dom().contains(k) <==> (s0.white_listed.dom().contains(k) && forall|j: int|
                    0 <= j < i ==> storage_key_of(#[trigger] kv[j]) != k),
            state@ == (ContractStateView { white_listed: state@.white_listed, ..s0 }),
    {
        assert(kv[i as int] == listed_view(keys@[i as int]));
        proof {
            let key_i = storage_key_of(kv[i as int]);
            assert(s0.white_listed.dom().contains(key_i));
            assert(storage_key_of(s0.white_listed[key_i]) == key_i);
        }
        let ghost prev = state@.white_listed;
        state.remove_white_listed(&keys[i].0, &keys[i].1, keys[i].2);
        proof {
            let key_i = storage_key_of(kv[i as int]);
            assert(state@.white_listed == prev.remove(key_i));
            assert forall|k: Seq<u8>| #[trigger]
                state@.white_listed.dom().contains(k) <==> (s0.white_listed.dom().contains(k) && forall|j: int|
                    0 <= j < i + 1 ==> storage_key_of(#[trigger] kv[j]) != k) by {
                if s0.white_listed.dom().contains(k) && !(forall|j: int|
                    0 <= j < i + 1 ==> storage_key_of(#[trigger] kv[j]) != k) {
                    let j = choose|j: int| 0 <= j < i + 1 && storage_key_of(kv[j]) == k;
                    if j < i {
                        assert(!prev.dom().contains(k));
                    }
                }
            }
        }
    }
    assert(state@.white_listed =~= Map::<Seq<u8>, WhiteListedView>::empty()) by {
        assert forall|k: Seq<u8>| !state@.white_listed.dom().contains(k) by {
            if state@.white_listed.dom().contains(k) {
                let j = choose|j: int| 0 <= j < n && storage_key_of(kv[j]) == k;
                assert(storage_key_of(kv[j]) != k);
            }
        }
    }
    let m = contracts.len();
    for i in 0..m
        invariant
            m == contracts@.len(),
            contracts_fit(contracts@),
            state.wf(),
            state@ == (ContractStateView { white_listed: white_listed_from(contracts@.take(i as int)), ..s0 }),
    {
        let c = &contracts[i];
        let address = c.contract_address.clone();
        assert(address@ =~= c.contract_address@);
        assert(white_list_key_fits(contracts@[i as int].contract_address@, contracts@[i as int].chain_id@));
        state.save_white_listed(address, c.chain_id.clone(), c.chain_type);
        assert(contracts@.take(i + 1).drop_last() =~= contracts@.take(i as int));
    }
    assert(contracts@.take(m as int) =~= contracts@);
    Ok(Response::new())
}

} // verus!
