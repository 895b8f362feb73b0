use generic_data_transfer::contract::{migrate, query, reply, sudo, CREATE_OUTBOUND_REPLY_ID};
use generic_data_transfer::handle_inbound::{decode_inbound_route, REQUEST_TIMEOUT};
use generic_data_transfer::msg::{MigrateMsg, QueryMsg, QueryResponse};
use generic_data_transfer::query::{fetch_contract_calls, fetch_recent_out_bound_nonce, fetch_temp_state};
use generic_data_transfer::router::{Coin, OutboundBatchResponse, OutboundBatchResponses, RouterMsg, SudoMsg};
use generic_data_transfer::state::ContractState;
use generic_data_transfer::types::{
    ContractVersion, Env, Reply, ReplyOn, StdError, StoredItem, SubMsgResponse, SubMsgResult,
};
use router_wasm_bindings::ethabi::ethereum_types::{H160, U256};
use router_wasm_bindings::ethabi::{encode, Token};

const TO: &str = "ab8483f64d9c6d1ecf9b849ae677dd3315835cb2";

fn mock_env() -> Env {
    Env {
        block_height: 12_345,
        block_time_nanos: 1_571_797_419_879_305_533,
        contract_address: String::from("cosmos2contract"),
    }
}

fn to_address() -> Vec<u8> {
    hex::decode(TO).unwrap()
}

fn uint(v: u64) -> Token {
    Token::Uint(U256::from(v))
}

fn address(bytes: &[u8]) -> Token {
    Token::Address(H160::from_slice(bytes))
}

fn payload(method: Token, inner: Vec<u8>) -> Vec<u8> {
    encode(&[method, Token::Bytes(inner)])
}

fn method0_inner(chain_id: u64) -> Vec<u8> {
    encode(&[uint(chain_id), uint(1), uint(2), address(&[0x11; 20]), address(&to_address())])
}

fn inbound(sender: &str, chain_type: u32, payload: Vec<u8>) -> SudoMsg {
    SudoMsg::HandleInboundReq {
        sender: String::from(sender),
        chain_type,
        source_chain_id: String::from("121"),
        payload,
    }
}

#[test]
fn inbound_method0_builds_outbound_request() {
    let mut state = ContractState::new();
    let p = payload(uint(0), method0_inner(137));
    let res = sudo(&mut state, &mock_env(), inbound("0x00967d76a67fde3a1987b971a91cf4fc6db14a3d", 0, p.clone()))
        .unwrap()
        .unwrap();
    assert_eq!(res.messages.len(), 1);
    let sub = &res.messages[0];
    assert_eq!(sub.id, CREATE_OUTBOUND_REPLY_ID);
    assert_eq!(sub.reply_on, ReplyOn::Success);
    assert_eq!(sub.gas_limit, None);
    let RouterMsg::OutboundBatchRequests { outbound_batch_requests } = &sub.msg;
    assert_eq!(outbound_batch_requests.len(), 1);
    let request = &outbound_batch_requests[0];
    assert_eq!(request.destination_chain_id, "137");
    assert_eq!(request.destination_chain_type, 0);
    assert_eq!(request.contract_calls.len(), 1);
    assert_eq!(hex::encode(&request.contract_calls[0].destination_contract_address), TO);
    assert_eq!(request.contract_calls[0].payload, p);
    assert_eq!(request.relayer_fee, Coin { denom: String::from("router"), amount: 1_000_000 });
    assert_eq!(request.outgoing_tx_fee, Coin { denom: String::from("router"), amount: 1_000_000 });
    assert_eq!(request.is_atomic, false);
    assert_eq!(request.exp_timestamp, 1_571_797_419 + REQUEST_TIMEOUT);
    assert_eq!(REQUEST_TIMEOUT, 86_400);
    let keys: Vec<(&str, &str)> = res.attributes.iter().map(|a| (a.key.as_str(), a.value.as_str())).collect();
    assert_eq!(
        keys,
        vec![("sender", "0x00967d76a67fde3a1987b971a91cf4fc6db14a3d"), ("chain_type", "0"), ("src_chain_id", "121")]
    );
    assert_eq!(res.events.len(), 1);
    assert_eq!(res.events[0].ty, "in_bound_request");
    let ev: Vec<(&str, &str)> = res.events[0].attributes.iter().map(|a| (a.key.as_str(), a.value.as_str())).collect();
    assert_eq!(
        ev,
        vec![
            ("sender", "0x00967d76a67fde3a1987b971a91cf4fc6db14a3d"),
            ("src_chain_type", "0"),
            ("src_chain_id", "121"),
        ]
    );
    assert_eq!(fetch_temp_state(&state).unwrap(), outbound_batch_requests.clone());
}

#[test]
fn inbound_method1_and_method2_take_the_fourth_value() {
    let dest = to_address();
    let inner1 = encode(&[uint(80001), uint(1), uint(2), address(&dest)]);
    let r1 = decode_inbound_route(&payload(uint(1), inner1)).unwrap().unwrap();
    assert_eq!(r1.dest_chain_id, "80001");
    assert_eq!(r1.dest_contract_address, dest);
    let inner2 = encode(&[uint(5), address(&[0x22; 20]), uint(9), address(&dest)]);
    let r2 = decode_inbound_route(&payload(uint(2), inner2)).unwrap().unwrap();
    assert_eq!(r2.dest_chain_id, "5");
    assert_eq!(r2.dest_contract_address, dest);
}

#[test]
fn inbound_chain_id_is_full_width_decimal() {
    let big = U256::from_dec_str("340282366920938463463374607431768211456").unwrap();
    let inner = encode(&[Token::Uint(big), uint(1), uint(2), address(&[0x11; 20]), address(&to_address())]);
    let r = decode_inbound_route(&payload(uint(0), inner)).unwrap().unwrap();
    assert_eq!(r.dest_chain_id, "340282366920938463463374607431768211456");
}

#[test]
fn inbound_method_type_uses_low_byte() {
    let r = decode_inbound_route(&payload(uint(256), method0_inner(7))).unwrap().unwrap();
    assert_eq!(r.dest_chain_id, "7");
}

#[test]
fn inbound_method_type_beyond_u32_aborts() {
    let mut state = ContractState::new();
    let p = payload(uint(1u64 << 32), method0_inner(7));
    assert!(sudo(&mut state, &mock_env(), inbound("0xab", 0, p)).is_none());
    assert_eq!(fetch_temp_state(&state), Err(StdError::NotFound { item: StoredItem::TempOutboundRequests }));
}

#[test]
fn inbound_unknown_method_type() {
    let mut state = ContractState::new();
    let res = sudo(&mut state, &mock_env(), inbound("0xab", 0, payload(uint(3), method0_inner(7)))).unwrap();
    assert_eq!(res, Err(StdError::GenericErr { msg: String::from("Payload decoding error - methodType invalid") }));
}

#[test]
fn inbound_bad_inner_payload() {
    let mut state = ContractState::new();
    let res = sudo(&mut state, &mock_env(), inbound("0xab", 0, payload(uint(1), vec![1, 2, 3]))).unwrap();
    assert_eq!(res, Err(StdError::GenericErr { msg: String::from("Payload decoding error") }));
}

#[test]
fn inbound_bad_main_payload() {
    let mut state = ContractState::new();
    let res = sudo(&mut state, &mock_env(), inbound("0xab", 0, b"hello".to_vec())).unwrap();
    assert_eq!(res, Err(StdError::GenericErr { msg: String::from("Payload decoding error - main payload") }));
    assert_eq!(fetch_temp_state(&state), Err(StdError::NotFound { item: StoredItem::TempOutboundRequests }));
}

fn old_layout(chain_id: &str, chain_type: U256, instruction: Vec<u8>) -> Vec<u8> {
    let old = encode(&[
        address(&to_address()),
        Token::String(String::from(chain_id)),
        Token::Uint(chain_type),
        Token::Bytes(instruction),
    ]);
    hex::encode(old).into_bytes()
}

#[test]
fn inbound_old_layout_calls_with_whole_payload_on_chain_type_zero() {
    let mut state = ContractState::new();
    let p = old_layout("80001", U256::from(9u64), vec![7, 8, 9]);
    let res = sudo(&mut state, &mock_env(), inbound("0x00967d76a67fde3a1987b971a91cf4fc6db14a3d", 0, p.clone()))
        .unwrap()
        .unwrap();
    let RouterMsg::OutboundBatchRequests { outbound_batch_requests } = &res.messages[0].msg;
    let request = &outbound_batch_requests[0];
    assert_eq!(request.destination_chain_id, "80001");
    assert_eq!(request.destination_chain_type, 0);
    assert_eq!(hex::encode(&request.contract_calls[0].destination_contract_address), TO);
    assert_eq!(request.contract_calls[0].payload, p);
}

#[test]
fn inbound_old_layout_ignores_a_large_chain_type() {
    let mut state = ContractState::new();
    let p = old_layout("1", U256::from(1u64 << 32), vec![]);
    let res = sudo(&mut state, &mock_env(), inbound("0xab", 0, p)).unwrap().unwrap();
    let RouterMsg::OutboundBatchRequests { outbound_batch_requests } = &res.messages[0].msg;
    assert_eq!(outbound_batch_requests[0].destination_chain_id, "1");
    assert_eq!(outbound_batch_requests[0].destination_chain_type, 0);
}

#[test]
fn inbound_hex_text_of_other_layout() {
    let mut state = ContractState::new();
    let p = hex::encode(encode(&[uint(3)])).into_bytes();
    let res = sudo(&mut state, &mock_env(), inbound("0xab", 0, p)).unwrap();
    assert_eq!(res, Err(StdError::GenericErr { msg: String::from("Payload decoding error - main payload") }));
}

#[test]
fn inbound_evm_sender_must_be_hex() {
    let mut state = ContractState::new();
    let p = payload(uint(0), method0_inner(7));
    assert!(sudo(&mut state, &mock_env(), inbound("0xzz", 0, p.clone())).is_none());
    assert!(sudo(&mut state, &mock_env(), inbound("0x0", 0, p.clone())).is_none());
    assert!(sudo(&mut state, &mock_env(), inbound("0xzz", 1, p.clone())).unwrap().is_ok());
    assert!(sudo(&mut state, &mock_env(), inbound("AB0x0xcd", 0, p)).unwrap().is_ok());
}

fn reply_with(nonces: &[u64]) -> Reply {
    Reply {
        id: CREATE_OUTBOUND_REPLY_ID,
        result: SubMsgResult::Success(SubMsgResponse {
            events: vec![],
            data: Some(OutboundBatchResponses {
                outbound_batch_responses: nonces
                    .iter()
                    .map(|n| OutboundBatchResponse { outbound_batch_nonce: *n })
                    .collect(),
            }),
        }),
    }
}

#[test]
fn reply_records_request_under_its_nonce() {
    let mut state = ContractState::new();
    let p = payload(uint(0), method0_inner(137));
    sudo(&mut state, &mock_env(), inbound("0xab", 0, p)).unwrap().unwrap();
    let temp = fetch_temp_state(&state).unwrap();
    let res = reply(&mut state, &mock_env(), reply_with(&[7])).unwrap();
    let attrs: Vec<(&str, &str)> = res.attributes.iter().map(|a| (a.key.as_str(), a.value.as_str())).collect();
    assert_eq!(attrs, vec![("outbound_nonce_0", "7")]);
    assert_eq!(fetch_recent_out_bound_nonce(&state), Ok(7));
    assert_eq!(fetch_contract_calls(&state, String::from("137"), 0, 7).unwrap(), temp[0]);
    match query(
        &state,
        &mock_env(),
        QueryMsg::FetchContractCalls {
            destination_chain_id: String::from("137"),
            destination_chain_type: 0,
            outbound_batch_nonce: 7,
        },
    )
    .unwrap()
    {
        QueryResponse::ContractCalls(r) => assert_eq!(r, temp[0]),
        other => panic!("unexpected answer {:?}", other),
    }
    assert_eq!(
        fetch_contract_calls(&state, String::from("137"), 0, 8),
        Err(StdError::NotFound { item: StoredItem::OutboundCallsState })
    );
}

#[test]
fn reply_without_waiting_requests() {
    let mut state = ContractState::new();
    let res = reply(&mut state, &mock_env(), reply_with(&[1]));
    assert_eq!(res, Err(StdError::NotFound { item: StoredItem::TempOutboundRequests }));
    assert_eq!(fetch_recent_out_bound_nonce(&state), Err(StdError::NotFound { item: StoredItem::LastOutboundNonce }));
}

#[test]
fn reply_unknown_id() {
    let mut state = ContractState::new();
    let msg = Reply { id: 5, result: SubMsgResult::Failure(String::from("boom")) };
    assert_eq!(
        reply(&mut state, &mock_env(), msg),
        Err(StdError::GenericErr { msg: String::from("Unknown reply id: 5") })
    );
}

#[test]
fn reply_failure_or_no_data_changes_nothing() {
    let mut state = ContractState::new();
    let failed = Reply { id: CREATE_OUTBOUND_REPLY_ID, result: SubMsgResult::Failure(String::from("boom")) };
    let res = reply(&mut state, &mock_env(), failed).unwrap();
    assert!(res.attributes.is_empty());
    let empty = Reply {
        id: CREATE_OUTBOUND_REPLY_ID,
        result: SubMsgResult::Success(SubMsgResponse { events: vec![], data: None }),
    };
    let res = reply(&mut state, &mock_env(), empty).unwrap();
    assert!(res.attributes.is_empty());
    assert_eq!(fetch_recent_out_bound_nonce(&state), Err(StdError::NotFound { item: StoredItem::LastOutboundNonce }));
}

#[test]
fn migrate_rules() {
    let mut state = ContractState::new();
    assert_eq!(migrate(&mut state, &mock_env(), MigrateMsg {}), Err(StdError::NotFound { item: StoredItem::ContractInfo }));
    state.save_contract_version(ContractVersion {
        contract: String::from("other"),
        version: String::from("0.0.1"),
    });
    assert_eq!(
        migrate(&mut state, &mock_env(), MigrateMsg {}),
        Err(StdError::GenericErr { msg: String::from("Can only upgrade from same type") })
    );
    state.save_contract_version(ContractVersion {
        contract: String::from("generic-data-transfer"),
        version: String::from("0.1.1"),
    });
    assert_eq!(
        migrate(&mut state, &mock_env(), MigrateMsg {}),
        Err(StdError::GenericErr { msg: String::from("Cannot upgrade from a newer version") })
    );
    state.save_contract_version(ContractVersion {
        contract: String::from("generic-data-transfer"),
        version: String::from("0.1.10"),
    });
    assert!(migrate(&mut state, &mock_env(), MigrateMsg {}).is_err());
    state.save_contract_version(ContractVersion {
        contract: String::from("generic-data-transfer"),
        version: String::from("0.1.0"),
    });
    let res = migrate(&mut state, &mock_env(), MigrateMsg {}).unwrap();
    assert!(res.attributes.is_empty());
    assert_eq!(state.load_contract_version().unwrap().version, "0.1.1");
}
