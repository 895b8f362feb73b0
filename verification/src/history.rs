//! Runs of calls on the contract, and which calls change the owner, the
//! waiting outbound requests and the most recent nonce.
use vstd::prelude::*;

use crate::contract::{
    execute_msg_fits, execute_outcome, migrate_outcome, reply_in_bounds, reply_outcome, response_nonces,
    sudo_outcome, this_version, CREATE_OUTBOUND_REPLY_ID,
};
use crate::execution::white_listed_from;
use crate::handle_inbound::inbound_outcome;
use crate::laws::{law_execute_refuses_non_owner, law_inbound_keeps_what_it_sends};
use crate::msg::ExecuteMsg;
use crate::router::{OutboundBatchRequestView, RouterMsgView, SudoMsg};
use crate::state::{white_listed_key, ContractStateView};
use crate::types::{Env, Reply, SubMsgResult};

verus! {

/// One call of the contract, as the host makes it.
pub enum Call {
    Instantiate { sender: Seq<char> },
    Execute { sender: Seq<char>, msg: ExecuteMsg },
    Sudo { env: Env, msg: SudoMsg },
    Reply { msg: Reply },
    Migrate,
}

/// The state that a call leaves. A call that aborts (a key part too long for
/// the store, a reply naming more nonces than there are waiting requests, an
/// inbound request that cannot be read) leaves the state as it was.
pub open spec fn step(s: ContractStateView, c: Call) -> ContractStateView {
    match c {
        Call::Instantiate { sender } => ContractStateView {
            owner: Some(sender),
            contract_version: Some(this_version()),
            ..s
        },
        Call::Execute { sender, msg } => if s.owner == Some(sender) && !execute_msg_fits(msg) {
            s
        } else {
            execute_outcome(s, sender, msg).1
        },
        Call::Sudo { env, msg } => sudo_outcome(s, env, msg).1,
        Call::Reply { msg } => if reply_in_bounds(s, msg) {
            reply_outcome(s, msg).1
        } else {
            s
        },
        Call::Migrate => migrate_outcome(s).1,
    }
}

/// The state after the calls, one after another.
pub open spec fn run(s: ContractStateView, calls: Seq<Call>) -> ContractStateView
    decreases calls.len(),
{
    if calls.len() == 0 {
        s
    } else {
        step(run(s, calls.drop_last()), calls.last())
    }
}

/// What the `i`-th call sets the tracked value to, from the state it meets, if it sets it.
pub open spec fn set_at<T>(
    s0: ContractStateView,
    calls: Seq<Call>,
    set: spec_fn(ContractStateView, Call) -> Option<T>,
    i: int,
) -> Option<T> {
    set(run(s0, calls.take(i)), calls[i])
}

proof fn lemma_set_at_prefix<T>(
    s0: ContractStateView,
    calls: Seq<Call>,
    set: spec_fn(ContractStateView, Call) -> Option<T>,
    i: int,
)
    requires
        calls.len() > 0,
        0 <= i < calls.len() - 1,
    ensures
        set_at(s0, calls.drop_last(), set, i) == set_at(s0, calls, set, i),
{
    assert(calls.drop_last().take(i) =~= calls.take(i));
    assert(calls.drop_last()[i] == calls[i]);
}

/// A value of the state that only the calls that `set` names change, each to what `set` gives.
proof fn lemma_history<T>(
    s0: ContractStateView,
    calls: Seq<Call>,
    proj: spec_fn(ContractStateView) -> T,
    set: spec_fn(ContractStateView, Call) -> Option<T>,
)
    requires
        forall|s: ContractStateView, c: Call|
            #[trigger] proj(step(s, c)) == match set(s, c) {
                Some(v) => v,
                None => proj(s),
            },
    ensures
        (forall|i: int| 0 <= i < calls.len() ==> #[trigger] set_at(s0, calls, set, i) is None) ==> proj(
            run(s0, calls),
        ) == proj(s0),
        forall|i: int|
            0 <= i < calls.len() && #[trigger] set_at(s0, calls, set, i) is Some && (forall|j: int|
                i < j < calls.len() ==> #[trigger] set_at(s0, calls, set, j) is None) ==> proj(run(s0, calls))
                == set_at(s0, calls, set, i).unwrap(),
    decreases calls.len(),
{
    if calls.len() > 0 {
        let init = calls.drop_last();
        let n = calls.len() - 1;
        lemma_history(s0, init, proj, set);
        assert(calls.take(n) =~= init);
        assert(proj(run(s0, calls)) == proj(step(run(s0, init), calls.last())));
        assert forall|i: int| 0 <= i < n implies #[trigger] set_at(s0, init, set, i) == set_at(s0, calls, set, i) by {
            lemma_set_at_prefix(s0, calls, set, i);
        }
        assert(set_at(s0, calls, set, n) == set(run(s0, init), calls.last()));
        assert forall|i: int|
            0 <= i < calls.len() && #[trigger] set_at(s0, calls, set, i) is Some && (forall|j: int|
                i < j < calls.len() ==> #[trigger] set_at(s0, calls, set, j) is None) implies proj(run(s0, calls))
                == set_at(s0, calls, set, i).unwrap() by {
            if i < n {
                assert(set_at(s0, calls, set, n) is None);
                assert(set_at(s0, init, set, i) is Some);
                assert forall|j: int| i < j < init.len() implies #[trigger] set_at(s0, init, set, j) is None by {
                    assert(set_at(s0, calls, set, j) is None);
                }
            }
        }
    }
}

/// Where some call sets the value, the value after the run is what one of them set.
proof fn lemma_history_some<T>(
    s0: ContractStateView,
    calls: Seq<Call>,
    proj: spec_fn(ContractStateView) -> T,
    set: spec_fn(ContractStateView, Call) -> Option<T>,
)
    requires
        forall|s: ContractStateView, c: Call|
            #[trigger] proj(step(s, c)) == match set(s, c) {
                Some(v) => v,
                None => proj(s),
            },
        exists|i: int| 0 <= i < calls.len() && #[trigger] set_at(s0, calls, set, i) is Some,
    ensures
        exists|i: int|
            0 <= i < calls.len() && #[trigger] set_at(s0, calls, set, i) is Some && proj(run(s0, calls))
                == set_at(s0, calls, set, i).unwrap(),
    decreases calls.len(),
{
    let init = calls.drop_last();
    let n = calls.len() - 1;
    assert(calls.take(n) =~= init);
    assert(proj(run(s0, calls)) == proj(step(run(s0, init), calls.last())));
    assert(set_at(s0, calls, set, n) == set(run(s0, init), calls.last()));
    if set_at(s0, calls, set, n) is None {
        let k = choose|i: int| 0 <= i < calls.len() && #[trigger] set_at(s0, calls, set, i) is Some;
        lemma_set_at_prefix(s0, calls, set, k);
        assert(set_at(s0, init, set, k) is Some);
        lemma_history_some(s0, init, proj, set);
        let m = choose|i: int|
            0 <= i < init.len() && #[trigger] set_at(s0, init, set, i) is Some && proj(run(s0, init))
                == set_at(s0, init, set, i).unwrap();
        lemma_set_at_prefix(s0, calls, set, m);
        assert(set_at(s0, calls, set, m) is Some);
    }
}

/// The owner that a call sets: only set-up sets one, to its sender.
pub open spec fn sets_owner(s: ContractStateView, c: Call) -> Option<Option<Seq<char>>> {
    match c {
        Call::Instantiate { sender } => Some(Some(sender)),
        _ => None,
    }
}

/// The outbound requests that a call sends, if it is an inbound request that succeeds.
pub open spec fn sends_requests(s: ContractStateView, c: Call) -> Option<Option<Seq<OutboundBatchRequestView>>> {
    match c {
        Call::Sudo { env, msg } => match msg {
            SudoMsg::HandleInboundReq { sender, chain_type, source_chain_id, payload } => match inbound_outcome(
                s,
                env.block_time_nanos,
                sender@,
                chain_type,
                source_chain_id@,
                payload@,
            ).0 {
                Some(Ok(r)) => match r.messages[0].msg {
                    RouterMsgView::OutboundBatchRequests { outbound_batch_requests } => Some(
                        Some(outbound_batch_requests),
                    ),
                },
                _ => None,
            },
            _ => None,
        },
        _ => None,
    }
}

/// The nonce that a call makes the most recent one: the last nonce of a
/// reply to the outbound requests that names at least one and does not abort.
pub open spec fn sets_last_nonce(s: ContractStateView, c: Call) -> Option<Option<u64>> {
    match c {
        Call::Reply { msg } => if reply_in_bounds(s, msg) && msg.id == CREATE_OUTBOUND_REPLY_ID {
            match msg.result {
                SubMsgResult::Success(r) => match r.data {
                    Some(d) => if s.temp_outbound_requests is Some && d.outbound_batch_responses@.len() > 0 {
                        Some(Some(d.outbound_batch_responses@.last().outbound_batch_nonce))
                    } else {
                        None
                    },
                    None => None,
                },
                SubMsgResult::Failure(_) => None,
            }
        } else {
            None
        },
        _ => None,
    }
}

pub open spec fn owner_of(s: ContractStateView) -> Option<Seq<char>> {
    s.owner
}

pub open spec fn temp_of(s: ContractStateView) -> Option<Seq<OutboundBatchRequestView>> {
    s.temp_outbound_requests
}

pub open spec fn last_nonce_of(s: ContractStateView) -> Option<u64> {
    s.last_outbound_nonce
}

proof fn lemma_step_owner(s: ContractStateView, c: Call)
    ensures
        owner_of(step(s, c)) == match sets_owner(s, c) {
            Some(v) => v,
            None => owner_of(s),
        },
{
}

proof fn lemma_step_temp(s: ContractStateView, c: Call)
    ensures
        temp_of(step(s, c)) == match sends_requests(s, c) {
            Some(v) => v,
            None => temp_of(s),
        },
{
    if let Call::Sudo { env, msg } = c {
        if let SudoMsg::HandleInboundReq { sender, chain_type, source_chain_id, payload } = msg {
            law_inbound_keeps_what_it_sends(s, env.block_time_nanos, sender@, chain_type, source_chain_id@, payload@);
        }
    }
}

proof fn lemma_step_last_nonce(s: ContractStateView, c: Call)
    ensures
        last_nonce_of(step(s, c)) == match sets_last_nonce(s, c) {
            Some(v) => v,
            None => last_nonce_of(s),
        },
{
    if let Call::Reply { msg } = c {
        if let SubMsgResult::Success(r) = msg.result {
            if let Some(d) = r.data {
                let nonces = response_nonces(d.outbound_batch_responses@);
                if nonces.len() > 0 {
                    assert(nonces.last() == d.outbound_batch_responses@.last().outbound_batch_nonce);
                }
            }
        }
    }
}

/// The owner after a run of calls is the sender of the last set-up among
/// them, or the owner before the run if there was none: no other call changes it.
pub proof fn law_owner_history(s0: ContractStateView, calls: Seq<Call>)
    ensures
        (forall|i: int| 0 <= i < calls.len() ==> !(#[trigger] calls[i] is Instantiate)) ==> run(s0, calls).owner
            == s0.owner,
        forall|i: int|
            0 <= i < calls.len() && #[trigger] calls[i] is Instantiate && (forall|j: int|
                i < j < calls.len() ==> !(#[trigger] calls[j] is Instantiate)) ==> run(s0, calls).owner
                == sets_owner(s0, calls[i]).unwrap(),
{
    let proj = |s: ContractStateView| owner_of(s);
    let set = |s: ContractStateView, c: Call| sets_owner(s, c);
    assert forall|s: ContractStateView, c: Call| #[trigger] proj(step(s, c)) == match set(s, c) {
        Some(v) => v,
        None => proj(s),
    } by {
        lemma_step_owner(s, c);
    }
    lemma_history(s0, calls, proj, set);
    assert forall|i: int| 0 <= i < calls.len() implies (#[trigger] set_at(s0, calls, set, i) is None) == !(
    calls[i] is Instantiate) by {}
    assert forall|i: int|
        0 <= i < calls.len() && #[trigger] calls[i] is Instantiate && (forall|j: int|
            i < j < calls.len() ==> !(#[trigger] calls[j] is Instantiate)) implies run(s0, calls).owner
            == sets_owner(s0, calls[i]).unwrap() by {
        assert(set_at(s0, calls, set, i) is Some);
        assert forall|j: int| i < j < calls.len() implies #[trigger] set_at(s0, calls, set, j) is None by {
            assert(!(calls[j] is Instantiate));
        }
    }
}

/// The outbound requests that wait for their reply, after a run of calls,
/// are those that the last successful inbound request among them sent; if
/// none succeeded they are what they were before the run. From a fresh
/// state, they are found exactly when an inbound request has succeeded.
pub proof fn law_temp_requests_history(s0: ContractStateView, calls: Seq<Call>)
    ensures
        (forall|i: int| 0 <= i < calls.len() ==> #[trigger] sends_requests(run(s0, calls.take(i)), calls[i]) is None)
            ==> run(s0, calls).temp_outbound_requests == s0.temp_outbound_requests,
        forall|i: int|
            0 <= i < calls.len() && #[trigger] sends_requests(run(s0, calls.take(i)), calls[i]) is Some && (forall|
                j: int,
            |
                i < j < calls.len() ==> #[trigger] sends_requests(run(s0, calls.take(j)), calls[j]) is None)
                ==> run(s0, calls).temp_outbound_requests == sends_requests(run(s0, calls.take(i)), calls[i]).unwrap()
                && run(s0, calls).temp_outbound_requests is Some,
        (exists|i: int| 0 <= i < calls.len() && #[trigger] sends_requests(run(s0, calls.take(i)), calls[i]) is Some)
            ==> run(s0, calls).temp_outbound_requests is Some,
{
    let proj = |s: ContractStateView| temp_of(s);
    let set = |s: ContractStateView, c: Call| sends_requests(s, c);
    assert forall|s: ContractStateView, c: Call| #[trigger] proj(step(s, c)) == match set(s, c) {
        Some(v) => v,
        None => proj(s),
    } by {
        lemma_step_temp(s, c);
    }
    lemma_history(s0, calls, proj, set);
    assert forall|i: int| 0 <= i < calls.len() implies #[trigger] set_at(s0, calls, set, i) == sends_requests(
        run(s0, calls.take(i)),
        calls[i],
    ) by {}
    assert forall|i: int|
        0 <= i < calls.len() && #[trigger] sends_requests(run(s0, calls.take(i)), calls[i]) is Some && (forall|
            j: int,
        |
            i < j < calls.len() ==> #[trigger] sends_requests(run(s0, calls.take(j)), calls[j]) is None)
            implies run(s0, calls).temp_outbound_requests == sends_requests(run(s0, calls.take(i)), calls[i]).unwrap()
            && run(s0, calls).temp_outbound_requests is Some by {
        assert(set_at(s0, calls, set, i) is Some);
        assert forall|j: int| i < j < calls.len() implies #[trigger] set_at(s0, calls, set, j) is None by {
            assert(sends_requests(run(s0, calls.take(j)), calls[j]) is None);
        }
    }
    if exists|i: int| 0 <= i < calls.len() && #[trigger] sends_requests(run(s0, calls.take(i)), calls[i]) is Some {
        let k = choose|i: int|
            0 <= i < calls.len() && #[trigger] sends_requests(run(s0, calls.take(i)), calls[i]) is Some;
        assert(set_at(s0, calls, set, k) is Some);
        lemma_history_some(s0, calls, proj, set);
        let m = choose|i: int|
            0 <= i < calls.len() && #[trigger] set_at(s0, calls, set, i) is Some && proj(run(s0, calls))
                == set_at(s0, calls, set, i).unwrap();
        assert(sends_requests(run(s0, calls.take(m)), calls[m]) is Some);
    }
}

/// The most recent nonce after a run of calls is the last nonce of the last
/// reply among them that records nonces; if there was none it is what it
/// was before the run.
pub proof fn law_last_nonce_history(s0: ContractStateView, calls: Seq<Call>)
    ensures
        (forall|i: int| 0 <= i < calls.len() ==> #[trigger] sets_last_nonce(run(s0, calls.take(i)), calls[i]) is None)
            ==> run(s0, calls).last_outbound_nonce == s0.last_outbound_nonce,
        forall|i: int|
            0 <= i < calls.len() && #[trigger] sets_last_nonce(run(s0, calls.take(i)), calls[i]) is Some && (forall|
                j: int,
            |
                i < j < calls.len() ==> #[trigger] sets_last_nonce(run(s0, calls.take(j)), calls[j]) is None)
                ==> run(s0, calls).last_outbound_nonce == sets_last_nonce(run(s0, calls.take(i)), calls[i]).unwrap(),
{
    let proj = |s: ContractStateView| last_nonce_of(s);
    let set = |s: ContractStateView, c: Call| sets_last_nonce(s, c);
    assert forall|s: ContractStateView, c: Call| #[trigger] proj(step(s, c)) == match set(s, c) {
        Some(v) => v,
        None => proj(s),
    } by {
        lemma_step_last_nonce(s, c);
    }
    lemma_history(s0, calls, proj, set);
    assert forall|i: int| 0 <= i < calls.len() implies #[trigger] set_at(s0, calls, set, i) == sets_last_nonce(
        run(s0, calls.take(i)),
        calls[i],
    ) by {}    assert forall|i: int|
        0 <= i < calls.len() && #[trigger] sets_last_nonce(run(s0, calls.take(i)), calls[i]) is Some && (forall|
            j: int,
        |
            i < j < calls.len() ==> #[trigger] sets_last_nonce(run(s0, calls.take(j)), calls[j]) is None)
            implies run(s0, calls).last_outbound_nonce == sets_last_nonce(run(s0, calls.take(i)), calls[i]).unwrap() by {
        assert(set_at(s0, calls, set, i) is Some);
        assert forall|j: int| i < j < calls.len() implies #[trigger] set_at(s0, calls, set, j) is None by {
            assert(sets_last_nonce(run(s0, calls.take(j)), calls[j]) is None);
        }
    }
}

/// Whether a call whitelists (`true`) or removes (`false`) the storage key
/// `k`, if it decides that: the owner's whitelisting or removal of a
/// contract with that key, or the owner's replacement of the whole whitelist.
pub open spec fn sets_listed(s: ContractStateView, c: Call, k: Seq<u8>) -> Option<bool> {
    match c {
        Call::Execute { sender, msg } => if s.owner == Some(sender) && execute_msg_fits(msg) {
            match msg {
                ExecuteMsg::WhiteListApplicationContract { chain_id, chain_type, contract_address } => if white_listed_key(
                    contract_address@,
                    chain_id@,
                    chain_type,
                ) == k {
                    Some(true)
                } else {
                    None
                },
                ExecuteMsg::DelistApplicationContract { chain_id, chain_type, contract_address } => if white_listed_key(
                    contract_address@,
                    chain_id@,
                    chain_type,
                ) == k {
                    Some(false)
                } else {
                    None
                },
                ExecuteMsg::WhiteListApplicationContracts { contracts } => Some(
                    white_listed_from(contracts@).dom().contains(k),
                ),
            }
        } else {
            None
        },
        _ => None,
    }
}

pub open spec fn listed_in(s: ContractStateView, k: Seq<u8>) -> bool {
    s.white_listed.dom().contains(k)
}

proof fn lemma_step_listed(s: ContractStateView, c: Call, k: Seq<u8>)
    ensures
        listed_in(step(s, c), k) == match sets_listed(s, c, k) {
            Some(v) => v,
            None => listed_in(s, k),
        },
{
    match c {
        Call::Execute { sender, msg } => {
            if s.owner != Some(sender) {
                law_execute_refuses_non_owner(s, sender, msg);
            }
        },
        Call::Sudo { env, msg } => {
            if let SudoMsg::HandleInboundReq { sender, chain_type, source_chain_id, payload } = msg {
                law_inbound_keeps_what_it_sends(s, env.block_time_nanos, sender@, chain_type, source_chain_id@, payload@);
            }
        },
        _ => {},
    }
}

/// Whether a contract's storage key is whitelisted after a run of calls is
/// decided by the last call among them that whitelists or removes that key
/// or replaces the whole whitelist; if there is none it is as before the
/// run. From a fresh state, a key is whitelisted exactly when such a last
/// call whitelisted it.
pub proof fn law_white_listed_history(s0: ContractStateView, calls: Seq<Call>, k: Seq<u8>)
    ensures
        (forall|i: int| 0 <= i < calls.len() ==> #[trigger] sets_listed(run(s0, calls.take(i)), calls[i], k) is None)
            ==> run(s0, calls).white_listed.dom().contains(k) == s0.white_listed.dom().contains(k),
        forall|i: int|
            0 <= i < calls.len() && #[trigger] sets_listed(run(s0, calls.take(i)), calls[i], k) is Some && (forall|
                j: int,
            |
                i < j < calls.len() ==> #[trigger] sets_listed(run(s0, calls.take(j)), calls[j], k) is None)
                ==> run(s0, calls).white_listed.dom().contains(k) == sets_listed(run(s0, calls.take(i)), calls[i], k).unwrap(),
{
    let proj = |s: ContractStateView| listed_in(s, k);
    let set = |s: ContractStateView, c: Call| sets_listed(s, c, k);
    assert forall|s: ContractStateView, c: Call| #[trigger] proj(step(s, c)) == match set(s, c) {
        Some(v) => v,
        None => proj(s),
    } by {
        lemma_step_listed(s, c, k);
    }
    lemma_history(s0, calls, proj, set);
    assert forall|i: int| 0 <= i < calls.len() implies #[trigger] set_at(s0, calls, set, i) == sets_listed(
        run(s0, calls.take(i)),
        calls[i],
        k,
    ) by {}
    assert forall|i: int|
        0 <= i < calls.len() && #[trigger] sets_listed(run(s0, calls.take(i)), calls[i], k) is Some && (forall|
            j: int,
        |
            i < j < calls.len() ==> #[trigger] sets_listed(run(s0, calls.take(j)), calls[j], k) is None)
            implies run(s0, calls).white_listed.dom().contains(k) == sets_listed(run(s0, calls.take(i)), calls[i], k).unwrap() by {
        assert(set_at(s0, calls, set, i) is Some);
        assert forall|j: int| i < j < calls.len() implies #[trigger] set_at(s0, calls, set, j) is None by {
            assert(sets_listed(run(s0, calls.take(j)), calls[j], k) is None);
        }
    }
}

} // verus!
