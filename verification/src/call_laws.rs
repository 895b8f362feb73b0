//! What each call of the contract does, stated over its inputs and its
//! results in plain terms: the inbound request's checks and the request it
//! sends, what a reply records and leaves alone, the text of an
//! acknowledgement record, and when a migration is allowed.
use vstd::prelude::*;
use vstd::utf8::encode_utf8;

use crate::abi::{checked_decoding, AbiParamType, AbiTokenView};
use crate::contract::{migrate_outcome, reply_outcome, response_nonces, sudo_outcome, CREATE_OUTBOUND_REPLY_ID};
use crate::execution::{delist_outcome, update_white_listed_outcome, white_list_outcome};
use crate::handle_acknowledgement::ack_record;
use crate::handle_inbound::{inbound_outcome, spec_decode_route, InboundRouteView};
use crate::laws::law_reply_records_requests;
use crate::query::spec_ack_key;
use crate::router::{CoinView, ContractCallView, OutboundBatchRequestView, OutboundBatchResponse, RouterMsgView, SudoMsg};
use crate::state::ContractStateView;
use crate::storage_key::bytes_lt;
use crate::text::{decimal, hex_bytes, hex_lower, replace_all};
use crate::types::{
    attr, generic_err, AttributeView, ContractVersionView, Env, EventView, Reply, ReplyOn, ResponseView, StdErrorView, StoredItem,
    SubMsgResult, SubMsgView,
};

verus! {

/// Whether an inbound request is accepted depends on its payload and, only
/// for an EVM source chain (type 0), on its sender: a payload that does not
/// decode aborts the call or is answered with the decoding error; one that
/// decodes is accepted from every sender of any other chain type, and from
/// an EVM sender whose text, with every "0x" removed, is hexadecimal. A
/// request that is not accepted leaves the state as it was.
pub proof fn law_inbound_accepts(
    state: ContractStateView,
    block_time_nanos: u64,
    sender: Seq<char>,
    src_chain_type: u32,
    src_chain_id: Seq<char>,
    payload: Seq<u8>,
)
    ensures
        spec_decode_route(payload) is None ==> inbound_outcome(
            state,
            block_time_nanos,
            sender,
            src_chain_type,
            src_chain_id,
            payload,
        ).0 is None,
        spec_decode_route(payload) matches Some(Err(e)) ==> inbound_outcome(
            state,
            block_time_nanos,
            sender,
            src_chain_type,
            src_chain_id,
            payload,
        ).0 == Some(Err::<ResponseView, StdErrorView>(e)),
        spec_decode_route(payload) matches Some(Ok(_)) && src_chain_type != 0 ==> inbound_outcome(
            state,
            block_time_nanos,
            sender,
            src_chain_type,
            src_chain_id,
            payload,
        ).0 matches Some(Ok(_)),
        spec_decode_route(payload) matches Some(Ok(_)) && src_chain_type == 0 && hex_bytes(
            encode_utf8(replace_all(sender, "0x"@, ""@)),
        ) is Some ==> inbound_outcome(state, block_time_nanos, sender, src_chain_type, src_chain_id, payload).0 matches Some(
            Ok(_),
        ),
        !(inbound_outcome(state, block_time_nanos, sender, src_chain_type, src_chain_id, payload).0 matches Some(
            Ok(_),
        )) ==> inbound_outcome(state, block_time_nanos, sender, src_chain_type, src_chain_id, payload).1 == state,
{
}

/// An accepted inbound request asks the Router chain, in one sub-message
/// whose success is replied to under the outbound reply id, to send one
/// outbound batch request: to the decoded destination chain id with chain
/// type zero, calling the decoded destination contract with the whole
/// payload, with a relayer fee and an outgoing fee of 1,000,000 "router",
/// not atomic, expiring a day after the block time in seconds. Its
/// attributes and its `in_bound_request` event report the sender, the
/// source chain type in decimal and the source chain id. That request is
/// kept as the one waiting for its reply; nothing else changes.
pub proof fn law_inbound_sends_one_request(
    state: ContractStateView,
    block_time_nanos: u64,
    sender: Seq<char>,
    src_chain_type: u32,
    src_chain_id: Seq<char>,
    payload: Seq<u8>,
)
    ensures
        inbound_outcome(state, block_time_nanos, sender, src_chain_type, src_chain_id, payload).0 matches Some(
            Ok(r),
        ) ==> spec_decode_route(payload) matches Some(Ok(route)) && {
            let fee = CoinView { denom: "router"@, amount: 1_000_000 };
            let q = OutboundBatchRequestView {
                destination_chain_type: 0,
                destination_chain_id: route.dest_chain_id,
                contract_calls: seq![
                    ContractCallView { destination_contract_address: route.dest_contract_address, payload: payload },
                ],
                relayer_fee: fee,
                outgoing_tx_fee: fee,
                is_atomic: false,
                exp_timestamp: (block_time_nanos / 1_000_000_000 + 86_400) as u64,
            };
            &&& r.messages == seq![
                SubMsgView {
                    id: CREATE_OUTBOUND_REPLY_ID,
                    msg: RouterMsgView::OutboundBatchRequests { outbound_batch_requests: seq![q] },
                    gas_limit: None,
                    reply_on: ReplyOn::Success,
                },
            ]
            &&& r.attributes == seq![
                attr("sender"@, sender),
                attr("chain_type"@, decimal(src_chain_type as nat)),
                attr("src_chain_id"@, src_chain_id),
            ]
            &&& r.events == seq![
                EventView {
                    ty: "in_bound_request"@,
                    attributes: seq![
                        attr("sender"@, sender),
                        attr("src_chain_type"@, decimal(src_chain_type as nat)),
                        attr("src_chain_id"@, src_chain_id),
                    ],
                },
            ]
            &&& inbound_outcome(state, block_time_nanos, sender, src_chain_type, src_chain_id, payload).1
                == ContractStateView { temp_outbound_requests: Some(seq![q]), ..state }
        },
{
}

/// The key under which a reply records the `i`-th waiting request: its
/// destination chain id and chain type, and the `i`-th answer's nonce.
pub open spec fn reply_key(t: Seq<OutboundBatchRequestView>, responses: Seq<OutboundBatchResponse>, i: int) -> Seq<
    char,
> {
    spec_ack_key(t[i].destination_chain_id, t[i].destination_chain_type as nat, responses[i].outbound_batch_nonce as nat)
}

/// A reply to the outbound requests that carries the Router chain's answers
/// while requests wait: it succeeds, records the `i`-th waiting request under
/// the key of its destination and the `i`-th answer's nonce (the last answer
/// with that key wins), leaves every other recorded request exactly as it
/// was, and makes the last answer's nonce the most recent one (if there is
/// an answer). Nothing else changes. A reply with another id is refused,
/// and every other reply changes nothing.
pub proof fn law_reply_records_only_named_keys(state: ContractStateView, msg: Reply)
    ensures
        msg.id != CREATE_OUTBOUND_REPLY_ID ==> reply_outcome(state, msg).0 is Err && reply_outcome(state, msg).1
            == state,
        !(msg.result matches SubMsgResult::Success(r) && r.data is Some && msg.id == CREATE_OUTBOUND_REPLY_ID
            && state.temp_outbound_requests is Some) ==> reply_outcome(state, msg).1 == state,
        (match (msg.result, state.temp_outbound_requests) {
            (SubMsgResult::Success(r), Some(t)) => match r.data {
                Some(d) => msg.id == CREATE_OUTBOUND_REPLY_ID ==> {
            let after = reply_outcome(state, msg).1;
            let rs = d.outbound_batch_responses@;
            &&& reply_outcome(state, msg).0 is Ok
            &&& forall|k: Seq<char>|
                (forall|i: int| 0 <= i < rs.len() ==> #[trigger] reply_key(t, rs, i) != k) ==> (
                #[trigger] after.outbound_calls.dom().contains(k) == state.outbound_calls.dom().contains(k)
                    && after.outbound_calls[k] == state.outbound_calls[k])
            &&& forall|i: int|
                0 <= i < rs.len() && (forall|j: int| i < j < rs.len() ==> #[trigger] reply_key(t, rs, j) != reply_key(t, rs, i))
                    ==> after.outbound_calls.dom().contains(#[trigger] reply_key(t, rs, i))
                    && after.outbound_calls[reply_key(t, rs, i)] == t[i]
            &&& after.last_outbound_nonce == if rs.len() == 0 {
                state.last_outbound_nonce
            } else {
                Some(rs.last().outbound_batch_nonce)
            }
            &&& after == ContractStateView {
                outbound_calls: after.outbound_calls,
                last_outbound_nonce: after.last_outbound_nonce,
                ..state
            }
        },
                None => true,
            },
            _ => true,
        }),
{
    if msg.id == CREATE_OUTBOUND_REPLY_ID {
        if let SubMsgResult::Success(r) = msg.result {
            if let Some(d) = r.data {
                if let Some(t) = state.temp_outbound_requests {
                    let rs = d.outbound_batch_responses@;
                    let nonces = response_nonces(rs);
                    law_reply_records_requests(state.outbound_calls, t, nonces);
                    assert forall|i: int| 0 <= i < rs.len() implies #[trigger] reply_key(t, rs, i) == spec_ack_key(
                        t[i].destination_chain_id,
                        t[i].destination_chain_type as nat,
                        nonces[i] as nat,
                    ) by {}
                    if rs.len() > 0 {
                        assert(nonces.last() == rs.last().outbound_batch_nonce);
                    }
                    let after = reply_outcome(state, msg).1;
                    assert(after.outbound_calls == crate::contract::recorded_calls(state.outbound_calls, t, nonces));
                    assert forall|k: Seq<char>|
                        (forall|i: int| 0 <= i < rs.len() ==> #[trigger] reply_key(t, rs, i) != k) implies (
                        #[trigger] after.outbound_calls.dom().contains(k) == state.outbound_calls.dom().contains(k)
                            && after.outbound_calls[k] == state.outbound_calls[k]) by {
                        assert forall|i: int| 0 <= i < nonces.len() implies spec_ack_key(
                            t[i].destination_chain_id,
                            t[i].destination_chain_type as nat,
                            #[trigger] nonces[i] as nat,
                        ) != k by {
                            assert(reply_key(t, rs, i) != k);
                        }
                    }
                    assert forall|i: int|
                        0 <= i < rs.len() && (forall|j: int| i < j < rs.len() ==> #[trigger] reply_key(t, rs, j) != reply_key(t, rs, i))
                            implies after.outbound_calls.dom().contains(#[trigger] reply_key(t, rs, i))
                            && after.outbound_calls[reply_key(t, rs, i)] == t[i] by {
                        assert forall|j: int| i < j < nonces.len() implies spec_ack_key(
                            t[j].destination_chain_id,
                            t[j].destination_chain_type as nat,
                            nonces[j] as nat,
                        ) != spec_ack_key(
                            t[i].destination_chain_id,
                            t[i].destination_chain_type as nat,
                            nonces[i] as nat,
                        ) by {
                            assert(reply_key(t, rs, j) != reply_key(t, rs, i));
                        }
                        assert(nonces[i] == rs[i].outbound_batch_nonce);
                    }
                    assert(after.last_outbound_nonce == if rs.len() == 0 {
                        state.last_outbound_nonce
                    } else {
                        Some(rs.last().outbound_batch_nonce)
                    });
                }
            }
        }
    }
}

/// The `Debug` text of a `bool`.
pub open spec fn debug_bool(b: bool) -> Seq<char> {
    if b {
        "true"@
    } else {
        "false"@
    }
}

/// The acknowledgement record is the execution code in decimal, the
/// execution status and the contracts' acknowledgements as a `Debug` list:
/// "[]" for none, "[" and the one item and "]" for one, and each further
/// item added before the closing "]" after ", ".
pub proof fn law_ack_record_text(execution_code: u64, execution_status: bool, responses: Seq<bool>, b: bool)
    ensures
        ({
            let head = "execution_code "@ + decimal(execution_code as nat) + ", execution_status "@ + debug_bool(
                execution_status,
            ) + ", contract_ack_responses "@;
            &&& ack_record(execution_code, execution_status, Seq::empty()) == head + "[]"@
            &&& ack_record(execution_code, execution_status, seq![b]) == head + "["@ + debug_bool(b) + "]"@
            &&& responses.len() > 0 ==> ack_record(execution_code, execution_status, responses.push(b)) == ack_record(
                execution_code,
                execution_status,
                responses,
            ).drop_last() + ", "@ + debug_bool(b) + "]"@
        }),
{
    reveal_strlit("[]");
    reveal_strlit("[");
    reveal_strlit("]");
    reveal_strlit("");
    let head = "execution_code "@ + decimal(execution_code as nat) + ", execution_status "@ + debug_bool(
        execution_status,
    ) + ", contract_ack_responses "@;
    assert(crate::text::bools_items_text(Seq::<bool>::empty()) =~= ""@);
    assert(ack_record(execution_code, execution_status, Seq::empty()) =~= head + "[]"@);
    assert(seq![b][0] == b);
    assert(ack_record(execution_code, execution_status, seq![b]) =~= head + "["@ + debug_bool(b) + "]"@);
    if responses.len() > 0 {
        let items = crate::text::bools_items_text(responses);
        assert(responses.push(b).drop_last() =~= responses);
        assert(crate::text::bools_items_text(responses.push(b)) == items + ", "@ + debug_bool(b));
        let before = ack_record(execution_code, execution_status, responses);
        assert(before =~= head + "["@ + items + "]"@);
        assert(before.drop_last() =~= head + "["@ + items);
        assert(ack_record(execution_code, execution_status, responses.push(b)) =~= before.drop_last() + ", "@
            + debug_bool(b) + "]"@);
    }
}

/// A migration needs a recorded version of this contract, "generic-data-transfer":
/// it succeeds exactly when the recorded version comes strictly before
/// "0.1.1" in byte order, and then records version "0.1.1" and changes
/// nothing else; otherwise it is refused and nothing changes.
pub proof fn law_migrate_from_older_version(state: ContractStateView)
    ensures
        state.contract_version is None ==> migrate_outcome(state) == (
            Err::<ResponseView, StdErrorView>(StdErrorView::NotFound { item: StoredItem::ContractInfo }),
            state,
        ),
        state.contract_version matches Some(v) && v.contract != "generic-data-transfer"@ ==> migrate_outcome(state) == (
            Err::<ResponseView, StdErrorView>(generic_err("Can only upgrade from same type"@)),
            state,
        ),
        (match state.contract_version {
            Some(v) => v.contract == "generic-data-transfer"@ ==> {
            &&& (migrate_outcome(state).0 is Ok <==> bytes_lt(encode_utf8(v.version), encode_utf8("0.1.1"@)))
            &&& migrate_outcome(state).0 is Ok ==> migrate_outcome(state).1 == ContractStateView {
                contract_version: Some(ContractVersionView { contract: "generic-data-transfer"@, version: "0.1.1"@ }),
                ..state
            }
            &&& migrate_outcome(state).0 is Err ==> migrate_outcome(state) == (
                Err::<ResponseView, StdErrorView>(generic_err("Cannot upgrade from a newer version"@)),
                state,
            )
        },
            None => true,
        }),
{
}

/// The layout of the payload: a method type and that method's own payload.
pub open spec fn outer_layout() -> Seq<AbiParamType> {
    seq![AbiParamType::Uint(8), AbiParamType::Bytes]
}

/// The layout of method 0's payload: chain id, two integers, the sender
/// contract and the destination contract.
pub open spec fn method0_layout() -> Seq<AbiParamType> {
    seq![
        AbiParamType::Uint(8),
        AbiParamType::Uint(256),
        AbiParamType::Uint(256),
        AbiParamType::Address,
        AbiParamType::Address,
    ]
}

/// The layout of method 1's payload: chain id, two integers and the destination contract.
pub open spec fn method1_layout() -> Seq<AbiParamType> {
    seq![AbiParamType::Uint(8), AbiParamType::Uint(256), AbiParamType::Uint(256), AbiParamType::Address]
}

/// The layout of method 2's payload: chain id, an address, an integer and the destination contract.
pub open spec fn method2_layout() -> Seq<AbiParamType> {
    seq![AbiParamType::Uint(8), AbiParamType::Address, AbiParamType::Uint(256), AbiParamType::Address]
}

/// The layout of a payload given as hexadecimal text: destination contract,
/// destination chain id, an integer and an instruction.
pub open spec fn text_layout() -> Seq<AbiParamType> {
    seq![AbiParamType::Address, AbiParamType::String, AbiParamType::Uint(256), AbiParamType::Bytes]
}

/// How a payload names its destination. Where the payload decodes as a
/// method type and a method payload: a method type that does not fit in 32
/// bits aborts; its low byte picks the method, and a method other than 0, 1
/// and 2 is refused; the method payload that does not decode in the
/// method's layout is refused; else the destination chain id is the method
/// payload's first integer in decimal, and the destination contract its
/// fifth value (method 0) or its fourth (methods 1 and 2). Where it does not
/// decode so, it is read as hexadecimal text of the text layout: the
/// destination contract is its first value and the chain id its second;
/// text that is not hexadecimal or not that layout is refused.
pub proof fn law_decode_route(payload: Seq<u8>)
    ensures
        checked_decoding(outer_layout(), payload) matches Some(main) && main[0] matches AbiTokenView::Uint(m)
            && m > u32::MAX ==> spec_decode_route(payload) is None,
        checked_decoding(outer_layout(), payload) matches Some(main) && main[0] matches AbiTokenView::Uint(m)
            && m <= u32::MAX && m % 256 > 2 ==> spec_decode_route(payload) == Some(
            Err::<InboundRouteView, StdErrorView>(generic_err("Payload decoding error - methodType invalid"@)),
        ),
        checked_decoding(outer_layout(), payload) matches Some(main) && main[0] matches AbiTokenView::Uint(m)
            && main[1] matches AbiTokenView::Bytes(inner) && m <= u32::MAX && ((m % 256 == 0 && checked_decoding(
            method0_layout(),
            inner,
        ) is None) || (m % 256 == 1 && checked_decoding(method1_layout(), inner) is None) || (m % 256 == 2
            && checked_decoding(method2_layout(), inner) is None)) ==> spec_decode_route(payload) == Some(
            Err::<InboundRouteView, StdErrorView>(generic_err("Payload decoding error"@)),
        ),
        (match checked_decoding(outer_layout(), payload) {
            Some(main) => match (main[0], main[1]) {
                (AbiTokenView::Uint(m), AbiTokenView::Bytes(inner)) => m <= u32::MAX && m % 256 == 0 ==> match checked_decoding(
                    method0_layout(),
                    inner,
                ) {
                    Some(t) => match (t[0], t[4]) {
                        (AbiTokenView::Uint(c), AbiTokenView::Address(a)) => spec_decode_route(payload) == Some(
                            Ok::<InboundRouteView, StdErrorView>(
                                InboundRouteView { dest_chain_id: decimal(c), dest_contract_address: a },
                            ),
                        ),
                        _ => true,
                    },
                    None => true,
                },
                _ => true,
            },
            None => true,
        }),
        (match checked_decoding(outer_layout(), payload) {
            Some(main) => match (main[0], main[1]) {
                (AbiTokenView::Uint(m), AbiTokenView::Bytes(inner)) => m <= u32::MAX && m % 256 == 1 ==> match checked_decoding(
                    method1_layout(),
                    inner,
                ) {
                    Some(t) => match (t[0], t[3]) {
                        (AbiTokenView::Uint(c), AbiTokenView::Address(a)) => spec_decode_route(payload) == Some(
                            Ok::<InboundRouteView, StdErrorView>(
                                InboundRouteView { dest_chain_id: decimal(c), dest_contract_address: a },
                            ),
                        ),
                        _ => true,
                    },
                    None => true,
                },
                _ => true,
            },
            None => true,
        }),
        (match checked_decoding(outer_layout(), payload) {
            Some(main) => match (main[0], main[1]) {
                (AbiTokenView::Uint(m), AbiTokenView::Bytes(inner)) => m <= u32::MAX && m % 256 == 2 ==> match checked_decoding(
                    method2_layout(),
                    inner,
                ) {
                    Some(t) => match (t[0], t[3]) {
                        (AbiTokenView::Uint(c), AbiTokenView::Address(a)) => spec_decode_route(payload) == Some(
                            Ok::<InboundRouteView, StdErrorView>(
                                InboundRouteView { dest_chain_id: decimal(c), dest_contract_address: a },
                            ),
                        ),
                        _ => true,
                    },
                    None => true,
                },
                _ => true,
            },
            None => true,
        }),
        (match hex_bytes(payload) {
            Some(abi) => checked_decoding(outer_layout(), payload) is None ==> match checked_decoding(text_layout(), abi) {
                Some(t) => match (t[0], t[1]) {
                    (AbiTokenView::Address(a), AbiTokenView::String(c)) => spec_decode_route(payload) == Some(
                        Ok::<InboundRouteView, StdErrorView>(InboundRouteView { dest_chain_id: c, dest_contract_address: a }),
                    ),
                    _ => true,
                },
                None => true,
            },
            None => true,
        }),
        checked_decoding(outer_layout(), payload) is None && (hex_bytes(payload) is None || (hex_bytes(payload) matches Some(
            abi,
        ) && checked_decoding(text_layout(), abi) is None)) ==> spec_decode_route(payload) == Some(
            Err::<InboundRouteView, StdErrorView>(generic_err("Payload decoding error - main payload"@)),
        ),
{
    assert(outer_layout() =~= crate::handle_inbound::main_payload_params());
    assert(method0_layout() =~= crate::handle_inbound::spec_inner_params(0u8).unwrap());
    assert(method1_layout() =~= crate::handle_inbound::spec_inner_params(1u8).unwrap());
    assert(method2_layout() =~= crate::handle_inbound::spec_inner_params(2u8).unwrap());
    assert(text_layout() =~= crate::handle_inbound::text_payload_params());
    if let Some(main) = checked_decoding(outer_layout(), payload) {
        if let AbiTokenView::Uint(m) = main[0] {
            if m <= u32::MAX {
                let mt = (m % 256) as u8;
                assert(mt as nat == m % 256);
            }
        }
    }
}

/// A reply carrying answers while requests wait is answered with the
/// attributes `outbound_nonce_<i>` = the `i`-th answer's nonce, both in
/// decimal, one per answer in order, and nothing else; a failed sub-message
/// or one without data is answered with an empty response.
pub proof fn law_reply_answer(state: ContractStateView, msg: Reply)
    ensures
        msg.id == CREATE_OUTBOUND_REPLY_ID && (msg.result is Failure || (msg.result matches SubMsgResult::Success(r)
            && r.data is None)) ==> reply_outcome(state, msg).0 == Ok::<ResponseView, StdErrorView>(
            ResponseView { messages: Seq::empty(), attributes: Seq::empty(), events: Seq::empty() },
        ),
        (match (msg.result, state.temp_outbound_requests) {
            (SubMsgResult::Success(r), Some(t)) => match r.data {
                Some(d) => msg.id == CREATE_OUTBOUND_REPLY_ID ==> {
                    let rs = d.outbound_batch_responses@;
                    reply_outcome(state, msg).0 matches Ok(res) && res.messages.len() == 0 && res.events.len() == 0
                        && res.attributes.len() == rs.len() && forall|i: int|
                        0 <= i < rs.len() ==> #[trigger] res.attributes[i] == attr(
                            "outbound_nonce_"@ + decimal(i as nat),
                            decimal(rs[i].outbound_batch_nonce as nat),
                        )
                },
                None => true,
            },
            (SubMsgResult::Success(r), None) => msg.id == CREATE_OUTBOUND_REPLY_ID && r.data is Some
                ==> reply_outcome(state, msg).0 == Err::<ResponseView, StdErrorView>(
                StdErrorView::NotFound { item: StoredItem::TempOutboundRequests },
            ),
            _ => true,
        }),
{
}

/// An acknowledgement is answered with the attributes sender, destination
/// chain type (decimal), destination chain id and batch nonce (decimal), in
/// that order, and nothing else.
pub proof fn law_ack_answer(state: ContractStateView, env: Env, msg: SudoMsg)
    ensures
        (match msg {
            SudoMsg::HandleOutboundAck {
                outbound_tx_requested_by,
                destination_chain_type,
                destination_chain_id,
                outbound_batch_nonce,
                contract_ack_responses,
                execution_code,
                execution_status,
            } => sudo_outcome(state, env, msg).0 == Some(
                Ok::<ResponseView, StdErrorView>(
                    ResponseView {
                        messages: Seq::empty(),
                        attributes: seq![
                            attr("sender"@, outbound_tx_requested_by@),
                            attr("destination_chain_type"@, decimal(destination_chain_type as nat)),
                            attr("destination_chain_id"@, destination_chain_id@),
                            attr("outbound_batch_nonce"@, decimal(outbound_batch_nonce as nat)),
                        ],
                        events: Seq::empty(),
                    },
                ),
            ),
            _ => true,
        }),
{
}

/// The owner's whitelisting is answered with the chain id, the chain type in
/// decimal and the contract address in lowercase hexadecimal (as
/// `application`); the owner's removal with the same under `bridge_address`;
/// the owner's replacement of the whitelist with an empty response.
pub proof fn law_white_list_answers(
    state: ContractStateView,
    sender: Seq<char>,
    chain_id: Seq<char>,
    chain_type: u32,
    contract_address: Seq<u8>,
    contracts: Seq<crate::msg::ApplicationContract>,
)
    requires
        state.owner == Some(sender),
    ensures
        white_list_outcome(state, sender, chain_id, chain_type, contract_address).0 == Ok::<ResponseView, StdErrorView>(
            ResponseView {
                messages: Seq::empty(),
                attributes: seq![
                    attr("chain_id"@, chain_id),
                    attr("chain_type"@, decimal(chain_type as nat)),
                    attr("application"@, hex_lower(contract_address)),
                ],
                events: Seq::empty(),
            },
        ),
        delist_outcome(state, sender, chain_id, chain_type, contract_address).0 == Ok::<ResponseView, StdErrorView>(
            ResponseView {
                messages: Seq::empty(),
                attributes: seq![
                    attr("chain_id"@, chain_id),
                    attr("chain_type"@, decimal(chain_type as nat)),
                    attr("bridge_address"@, hex_lower(contract_address)),
                ],
                events: Seq::empty(),
            },
        ),
        update_white_listed_outcome(state, sender, contracts).0 == Ok::<ResponseView, StdErrorView>(
            ResponseView { messages: Seq::empty(), attributes: Seq::empty(), events: Seq::empty() },
        ),
{
}

} // verus!
