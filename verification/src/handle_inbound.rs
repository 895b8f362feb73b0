//! Turning a request that arrived from another chain into an outbound batch
//! request for its destination.
use vstd::prelude::*;
use vstd::string::*;
use vstd::utf8::encode_utf8;

use crate::abi::{
    abi_decode_checked, checked_decoding, tokens_fit, tokens_view, u256_as_u32, AbiParamType, AbiToken,
    AbiTokenView,
};
use crate::router::{
    calls_view, duplicate_requests, requests_view, Coin, CoinView, ContractCall, ContractCallView,
    OutboundBatchRequest, OutboundBatchRequestView, RouterMsg, RouterMsgView,
};
use crate::contract::CREATE_OUTBOUND_REPLY_ID;
use crate::state::{ContractState, ContractStateView};
use crate::text::{
    base64_decode, binary_to_string, decimal, hex_bytes, hex_decode, replace, replace_all,
    u256_to_decimal, u64_to_decimal,
};
use crate::types::{
    attr, lit, outcome_view, spec_block_seconds, Env, Event, EventView, ReplyOn, Response, ResponseView, StdError,
    StdErrorView, SubMsg, SubMsgView, generic_err,
};

verus! {

/// How long, in seconds, an outbound batch request stays valid.
pub const REQUEST_TIMEOUT: u64 = 24 * 60 * 60;

/// Where an inbound request asks to be carried: the destination chain id
/// and the address of the destination contract.
#[derive(Clone, Debug, PartialEq, Eq)]
pub struct InboundRoute {
    pub dest_chain_id: String,
    pub dest_contract_address: Vec<u8>,
}

pub struct InboundRouteView {
    pub dest_chain_id: Seq<char>,
    pub dest_contract_address: Seq<u8>,
}

impl View for InboundRoute {
    type V = InboundRouteView;

    open spec fn view(&self) -> InboundRouteView {
        InboundRouteView {
            dest_chain_id: self.dest_chain_id@,
            dest_contract_address: self.dest_contract_address@,
        }
    }
}

pub open spec fn uint_of(t: AbiTokenView) -> nat {
    match t {
        AbiTokenView::Uint(v) => v,
        _ => 0,
    }
}

pub open spec fn address_of(t: AbiTokenView) -> Seq<u8> {
    match t {
        AbiTokenView::Address(a) => a,
        _ => Seq::empty(),
    }
}

pub open spec fn bytes_of(t: AbiTokenView) -> Seq<u8> {
    match t {
        AbiTokenView::Bytes(b) => b,
        _ => Seq::empty(),
    }
}

pub open spec fn string_of(t: AbiTokenView) -> Seq<char> {
    match t {
        AbiTokenView::String(c) => c,
        _ => Seq::empty(),
    }
}

/// The payload's outer layout: the method type and the method's own payload.
pub open spec fn main_payload_params() -> Seq<AbiParamType> {
    seq![AbiParamType::Uint(8), AbiParamType::Bytes]
}

/// The layout of a method's own payload, for the methods there are.
pub open spec fn spec_inner_params(method_type: u8) -> Option<Seq<AbiParamType>> {
    if method_type == 0 {
        Some(
            seq![
                AbiParamType::Uint(8),
                AbiParamType::Uint(256),
                AbiParamType::Uint(256),
                AbiParamType::Address,
                AbiParamType::Address,
            ],
        )
    } else if method_type == 1 {
        Some(seq![AbiParamType::Uint(8), AbiParamType::Uint(256), AbiParamType::Uint(256), AbiParamType::Address])
    } else if method_type == 2 {
        Some(seq![AbiParamType::Uint(8), AbiParamType::Address, AbiParamType::Uint(256), AbiParamType::Address])
    } else {
        None
    }
}

/// Which value of a method's payload is the destination contract.
pub open spec fn address_index(method_type: u8) -> int {
    if method_type == 0 {
        4
    } else {
        3
    }
}

/// The route that a method's decoded payload names: the first value, in
/// decimal, is the destination chain id.
pub open spec fn route_of(method_type: u8, tokens: Seq<AbiTokenView>) -> InboundRouteView {
    InboundRouteView {
        dest_chain_id: decimal(uint_of(tokens[0])),
        dest_contract_address: address_of(tokens[address_index(method_type)]),
    }
}

/// The layout of a payload written as the hexadecimal text of an ABI
/// encoding: destination contract, destination chain id, destination chain
/// type and the instruction for the destination contract.
pub open spec fn text_payload_params() -> Seq<AbiParamType> {
    seq![AbiParamType::Address, AbiParamType::String, AbiParamType::Uint(256), AbiParamType::Bytes]
}

/// What decoding a payload in the hexadecimal-text layout gives: the route
/// that its destination contract and chain id name, or the main payload
/// error where the payload is not that layout.
pub open spec fn spec_text_route(payload: Seq<u8>) -> Result<InboundRouteView, StdErrorView> {
    match hex_bytes(payload) {
        None => Err(generic_err("Payload decoding error - main payload"@)),
        Some(abi) => match checked_decoding(text_payload_params(), abi) {
            None => Err(generic_err("Payload decoding error - main payload"@)),
            Some(t) => Ok(InboundRouteView { dest_chain_id: string_of(t[1]), dest_contract_address: address_of(t[0]) }),
        },
    }
}

/// The method type that an integer token gives, or `None` where converting it aborts.
pub open spec fn spec_method_type(v: nat) -> Option<u8> {
    if v > u32::MAX {
        None
    } else {
        Some((v % 256) as u8)
    }
}

/// What decoding an inbound payload gives: the route, an error, or `None`
/// where decoding aborts.
pub open spec fn spec_decode_route(payload: Seq<u8>) -> Option<Result<InboundRouteView, StdErrorView>> {
    match checked_decoding(main_payload_params(), payload) {
        None => Some(spec_text_route(payload)),
        Some(main) => match spec_method_type(uint_of(main[0])) {
            None => None,
            Some(method_type) => match spec_inner_params(method_type) {
                None => Some(Err(generic_err("Payload decoding error - methodType invalid"@))),
                Some(params) => match checked_decoding(params, bytes_of(main[1])) {
                    None => Some(Err(generic_err("Payload decoding error"@))),
                    Some(inner) => Some(Ok(route_of(method_type, inner))),
                },
            },
        },
    }
}

/// The method type of the payload's first value: its low byte, or `None`
/// where the value does not fit in 32 bits and the conversion aborts.
pub fn method_type_of(token: &AbiToken) -> (res: Option<u8>)
    requires
        token@ is Uint,
    ensures
        res == spec_method_type(uint_of(token@)),
{
    match token {
        AbiToken::Uint(words) => match u256_as_u32(*words) {
            Some(v) => Some((v % 256) as u8),
            None => None,
        },
        _ => None,
    }
}

/// The layout of a method's own payload, or `None` for an unknown method.
pub fn inner_payload_params(method_type: u8) -> (res: Option<Vec<AbiParamType>>)
    ensures
        match res {
            Some(v) => spec_inner_params(method_type) == Some(v@),
            None => spec_inner_params(method_type) is None,
        },
{
    if method_type == 0 {
        let v = vec![
            AbiParamType::Uint(8),
            AbiParamType::Uint(256),
            AbiParamType::Uint(256),
            AbiParamType::Address,
            AbiParamType::Address,
        ];
        assert(v@ =~= spec_inner_params(method_type).unwrap());
        Some(v)
    } else if method_type == 1 {
        let v = vec![AbiParamType::Uint(8), AbiParamType::Uint(256), AbiParamType::Uint(256), AbiParamType::Address];
        assert(v@ =~= spec_inner_params(method_type).unwrap());
        Some(v)
    } else if method_type == 2 {
        let v = vec![AbiParamType::Uint(8), AbiParamType::Address, AbiParamType::Uint(256), AbiParamType::Address];
        assert(v@ =~= spec_inner_params(method_type).unwrap());
        Some(v)
    } else {
        None
    }
}

/// The route that a method's decoded payload names.
pub fn route_from_inner_tokens(method_type: u8, tokens: &Vec<AbiToken>) -> (res: InboundRoute)
    requires
        spec_inner_params(method_type) is Some,
        tokens_fit(spec_inner_params(method_type).unwrap(), tokens_view(tokens@)),
    ensures
        res@ == route_of(method_type, tokens_view(tokens@)),
{
    let ghost tv = tokens_view(tokens@);
    assert(tv[0] is Uint);
    let dest_chain_id = match &tokens[0] {
        AbiToken::Uint(words) => u256_to_decimal(*words),
        _ => String::new(),
    };
    let idx: usize = if method_type == 0 {
        4
    } else {
        3
    };
    assert(tv[idx as int] is Address);
    let dest_contract_address = match &tokens[idx] {
        AbiToken::Address(a) => {
            let v = a.clone();
            assert(v@ =~= a@);
            v
        },
        _ => Vec::new(),
    };
    InboundRoute { dest_chain_id, dest_contract_address }
}

/// The route that a payload in the hexadecimal-text layout names.
pub fn text_route(payload: &Vec<u8>) -> (res: Result<InboundRoute, StdError>)
    ensures
        match (res, spec_text_route(payload@)) {
            (Ok(r), Ok(s)) => r@ == s,
            (Err(e), Err(s)) => e@ == s,
            _ => false,
        },
{
    let abi = match hex_decode(payload) {
        Ok(v) => v,
        Err(_) => {
            return Err(StdError::GenericErr { msg: lit("Payload decoding error - main payload") });
        },
    };
    let params = vec![AbiParamType::Address, AbiParamType::String, AbiParamType::Uint(256), AbiParamType::Bytes];
    assert(params@ =~= text_payload_params());
    let tokens = match abi_decode_checked(&params, &abi) {
        Ok(t) => t,
        Err(_) => {
            return Err(StdError::GenericErr { msg: lit("Payload decoding error - main payload") });
        },
    };
    let ghost tv = tokens_view(tokens@);
    assert(tv[0] is Address && tv[1] is String);
    let dest_contract_address = match &tokens[0] {
        AbiToken::Address(a) => {
            let v = a.clone();
            assert(v@ =~= a@);
            v
        },
        _ => Vec::new(),
    };
    let dest_chain_id = match &tokens[1] {
        AbiToken::String(c) => c.clone(),
        _ => String::new(),
    };
    Ok(InboundRoute { dest_chain_id, dest_contract_address })
}

/// Decodes an inbound payload into its route. A payload that does not decode
/// as a method type and a method payload is read in the hexadecimal-text
/// layout. `None` stands where decoding aborts: the method type does not fit
/// in 32 bits.
pub fn decode_inbound_route(payload: &Vec<u8>) -> (res: Option<Result<InboundRoute, StdError>>)
    ensures
        match (res, spec_decode_route(payload@)) {
            (None, None) => true,
            (Some(Ok(r)), Some(Ok(s))) => r@ == s,
            (Some(Err(e)), Some(Err(s))) => e@ == s,
            _ => false,
        },
{
    let text = binary_to_string(payload);
    let hex_bytes = match base64_decode(&text) {
        Ok(v) => v,
        Err(_) => {
            assert(false);
            return None;
        },
    };
    assert(hex_bytes@ == payload@);
    let main_params = vec![AbiParamType::Uint(8), AbiParamType::Bytes];
    assert(main_params@ =~= main_payload_params());
    let decoded_payload = match abi_decode_checked(&main_params, &hex_bytes) {
        Ok(tokens) => tokens,
        Err(_) => {
            return Some(text_route(&hex_bytes));
        },
    };
    let ghost main = tokens_view(decoded_payload@);
    assert(main[0] is Uint);
    assert(main[1] is Bytes);
    let method_type = match method_type_of(&decoded_payload[0]) {
        Some(m) => m,
        None => {
            return None;
        },
    };
    let inner_payload = match &decoded_payload[1] {
        AbiToken::Bytes(b) => {
            let v = b.clone();
            assert(v@ =~= b@);
            v
        },
        _ => Vec::new(),
    };
    let params = match inner_payload_params(method_type) {
        Some(p) => p,
        None => {
            return Some(Err(StdError::GenericErr { msg: lit("Payload decoding error - methodType invalid") }));
        },
    };
    let decoded_inner_payload = match abi_decode_checked(&params, &inner_payload) {
        Ok(tokens) => tokens,
        Err(_) => {
            return Some(Err(StdError::GenericErr { msg: lit("Payload decoding error") }));
        },
    };
    Some(Ok(route_from_inner_tokens(method_type, &decoded_inner_payload)))
}

/// Whether the sender's address can be read: an EVM sender (chain type
/// zero) must be hexadecimal once every "0x" is removed.
pub open spec fn sender_decodes(sender: Seq<char>, src_chain_type: u32) -> bool {
    src_chain_type != 0 || hex_bytes(encode_utf8(replace_all(sender, "0x"@, ""@))) is Some
}

/// The sender's address as bytes, or `None` where reading it aborts.
fn sender_contract_address(sender: &String, src_chain_type: u32) -> (res: Option<Vec<u8>>)
    ensures
        res is Some <==> sender_decodes(sender@, src_chain_type),
{
    if src_chain_type == 0 {
        proof {
            reveal_strlit("0x");
        }
        let temp_sender = replace(sender, "0x", "");
        let text = vstd::slice::slice_to_vec(temp_sender.as_str().as_bytes());
        match hex_decode(&text) {
            Ok(v) => Some(v),
            Err(_) => None,
        }
    } else {
        Some(vstd::slice::slice_to_vec(sender.as_str().as_bytes()))
    }
}

/// The fee that each outbound batch request carries.
pub open spec fn router_fee() -> CoinView {
    CoinView { denom: "router"@, amount: 1_000_000 }
}

fn make_router_fee() -> (res: Coin)
    ensures
        res@ == router_fee(),
{
    Coin { denom: lit("router"), amount: 1_000_000u128 }
}

/// The outbound batch request made from an inbound request's route: one call
/// of the destination contract with the whole payload, to a chain of type
/// zero, valid for a day.
pub open spec fn outbound_request_of(route: InboundRouteView, payload: Seq<u8>, block_seconds: u64) -> OutboundBatchRequestView {
    OutboundBatchRequestView {
        destination_chain_type: 0,
        destination_chain_id: route.dest_chain_id,
        contract_calls: seq![
            ContractCallView { destination_contract_address: route.dest_contract_address, payload },
        ],
        relayer_fee: router_fee(),
        outgoing_tx_fee: router_fee(),
        is_atomic: false,
        exp_timestamp: (block_seconds + REQUEST_TIMEOUT) as u64,
    }
}

/// The response to an inbound request: the outbound request as a
/// sub-message whose success is replied to, an `in_bound_request` event and
/// the source's attributes.
pub open spec fn inbound_response(
    sender: Seq<char>,
    src_chain_type: u32,
    src_chain_id: Seq<char>,
    request: OutboundBatchRequestView,
) -> ResponseView {
    ResponseView {
        messages: seq![
            SubMsgView {
                id: CREATE_OUTBOUND_REPLY_ID,
                msg: RouterMsgView::OutboundBatchRequests { outbound_batch_requests: seq![request] },
                gas_limit: None,
                reply_on: ReplyOn::Success,
            },
        ],
        attributes: seq![
            attr("sender"@, sender),
            attr("chain_type"@, decimal(src_chain_type as nat)),
            attr("src_chain_id"@, src_chain_id),
        ],
        events: seq![
            EventView {
                ty: "in_bound_request"@,
                attributes: seq![
                    attr("sender"@, sender),
                    attr("src_chain_type"@, decimal(src_chain_type as nat)),
                    attr("src_chain_id"@, src_chain_id),
                ],
            },
        ],
    }
}

/// What an inbound request answers and the state it leaves. `None` stands
/// where the call aborts; then nothing is stored.
pub open spec fn inbound_outcome(
    state: ContractStateView,
    block_time_nanos: u64,
    sender: Seq<char>,
    src_chain_type: u32,
    src_chain_id: Seq<char>,
    payload: Seq<u8>,
) -> (Option<Result<ResponseView, StdErrorView>>, ContractStateView) {
    match spec_decode_route(payload) {
        None => (None, state),
        Some(Err(e)) => (Some(Err(e)), state),
        Some(Ok(route)) => if !sender_decodes(sender, src_chain_type) {
            (None, state)
        } else {
            let request = outbound_request_of(route, payload, spec_block_seconds(block_time_nanos));
            (
                Some(Ok(inbound_response(sender, src_chain_type, src_chain_id, request))),
                ContractStateView { temp_outbound_requests: Some(seq![request]), ..state },
            )
        },
    }
}

/// Decodes an inbound request, keeps the outbound batch request made from it
/// until its reply comes, and asks the Router chain to send it.
pub fn handle_in_bound_request(
    state: &mut ContractState,
    env: &Env,
    sender: String,
    src_chain_type: u32,
    src_chain_id: String,
    payload: Vec<u8>,
) -> (res: Option<Result<Response, StdError>>)
    requires
        old(state).wf(),
    ensures
        final(state).wf(),
        (outcome_view(res), final(state)@) == inbound_outcome(
            old(state)@,
            env.block_time_nanos,
            sender@,
            src_chain_type,
            src_chain_id@,
            payload@,
        ),
{
    let route = match decode_inbound_route(&payload) {
        None => {
            return None;
        },
        Some(Err(e)) => {
            return Some(Err(e));
        },
        Some(Ok(r)) => r,
    };
    let ghost rv = route@;
    let ghost pv = payload@;
    let event = Event::new(lit("in_bound_request"))
        .add_attribute(lit("sender"), sender.clone())
        .add_attribute(lit("src_chain_type"), u64_to_decimal(src_chain_type as u64))
        .add_attribute(lit("src_chain_id"), src_chain_id.clone());
    assert(event@.attributes =~= seq![
        attr("sender"@, sender@),
        attr("src_chain_type"@, decimal(src_chain_type as nat)),
        attr("src_chain_id"@, src_chain_id@),
    ]);
    let sender_address = sender_contract_address(&sender, src_chain_type);
    if sender_address.is_none() {
        return None;
    }
    let contract_call = ContractCall {
        destination_contract_address: route.dest_contract_address,
        payload,
    };
    let seconds = env.block_seconds();
    assert(seconds <= u64::MAX / 1_000_000_000);
    let outbound_batch_req = OutboundBatchRequest {
        destination_chain_type: 0,
        destination_chain_id: route.dest_chain_id,
        contract_calls: vec![contract_call],
        relayer_fee: make_router_fee(),
        outgoing_tx_fee: make_router_fee(),
        is_atomic: false,
        exp_timestamp: seconds + REQUEST_TIMEOUT,
    };
    let ghost req = outbound_request_of(rv, pv, seconds);
    assert(calls_view(outbound_batch_req.contract_calls@) =~= req.contract_calls);
    assert(outbound_batch_req@ == req);
    let outbound_batch_requests = vec![outbound_batch_req];
    assert(requests_view(outbound_batch_requests@) =~= seq![req]);
    state.save_temp_outbound_requests(duplicate_requests(&outbound_batch_requests));
    let outbound_batch_reqs = RouterMsg::OutboundBatchRequests { outbound_batch_requests };
    let outbound_submessage = SubMsg {
        gas_limit: None,
        id: CREATE_OUTBOUND_REPLY_ID,
        reply_on: ReplyOn::Success,
        msg: outbound_batch_reqs,
    };
    let ghost s = sender@;
    let ghost c = src_chain_id@;
    let res = Response::new()
        .add_submessage(outbound_submessage)
        .add_event(event)
        .add_attribute(lit("sender"), sender)
        .add_attribute(lit("chain_type"), u64_to_decimal(src_chain_type as u64))
        .add_attribute(lit("src_chain_id"), src_chain_id);
    let ghost expected = inbound_response(s, src_chain_type, c, req);
    assert(res@.messages =~= expected.messages);
    assert(res@.events =~= expected.events);
    assert(res@.attributes =~= expected.attributes);
    Some(Ok(res))
}

} // verus!
