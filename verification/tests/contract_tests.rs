use generic_data_transfer::contract::{execute, instantiate, query, sudo};
use generic_data_transfer::msg::{ApplicationContract, ExecuteMsg, InstantiateMsg, QueryMsg, QueryResponse};
use generic_data_transfer::query::{fetch_white_listed_contract, is_white_listed_contract};
use generic_data_transfer::router::{OutboundBatchRequest, RouterMsg, SudoMsg};
use router_wasm_bindings::ethabi::ethereum_types::{H160, U256};
use router_wasm_bindings::ethabi::{encode, Token};
use generic_data_transfer::state::ContractState;
use generic_data_transfer::types::{Env, MessageInfo, Response, StdError, StoredItem};

const INIT_ADDRESS: &str = "init_address";
const TO: &str = "ab8483f64d9c6d1ecf9b849ae677dd3315835cb2";
const SENDER: &str = "00967d76a67fde3a1987b971a91cf4fc6db14a3d";
const CHAIN_ID: &str = "121";
const CHAIN_TYPE: u32 = 0;

fn mock_env() -> Env {
    Env {
        block_height: 12_345,
        block_time_nanos: 1_571_797_419_879_305_533,
        contract_address: String::from("cosmos2contract"),
    }
}

fn mock_info(sender: &str) -> MessageInfo {
    MessageInfo { sender: String::from(sender) }
}

fn do_instantiate(state: &mut ContractState, env: &Env, info: &MessageInfo) {
    let instantiate_msg = InstantiateMsg {};
    let res = instantiate(state, env, info, instantiate_msg).unwrap();
    assert_eq!(0, res.messages.len());
}

fn test_update_bridge_contract(state: &mut ContractState, env: &Env, info: &MessageInfo) {
    let to_address: Vec<u8> = hex::decode(TO).unwrap();
    let msg: ExecuteMsg = ExecuteMsg::WhiteListApplicationContract {
        chain_id: String::from(CHAIN_ID),
        chain_type: CHAIN_TYPE,
        contract_address: to_address,
    };
    let result = execute(state, env, info, msg);
    assert_eq!(result.is_ok(), true);

    let sender_address: Vec<u8> = hex::decode(SENDER).unwrap();
    let msg: ExecuteMsg = ExecuteMsg::WhiteListApplicationContract {
        chain_id: String::from(CHAIN_ID),
        chain_type: CHAIN_TYPE,
        contract_address: sender_address,
    };
    let result = execute(state, env, info, msg);
    assert_eq!(result.is_ok(), true);
}

#[test]
fn test_init() {
    let mut state = ContractState::new();
    let env = mock_env();
    let info = mock_info(INIT_ADDRESS);
    do_instantiate(&mut state, &env, &info);
}

#[test]
fn test_sudo_function() {
    let mut state = ContractState::new();
    let env = mock_env();
    let info = mock_info(INIT_ADDRESS);
    do_instantiate(&mut state, &env, &info);
    test_update_bridge_contract(&mut state, &env, &info);

    let chain_id_token: Token = Token::String(String::from(CHAIN_ID));

    let address_h160 = H160::from_slice(&hex::decode(TO).unwrap());
    let destination_address: Token = Token::Address(address_h160);

    let u256 = U256::from(CHAIN_TYPE);
    let chain_type = Token::Uint(u256);

    let instruction_bytes: Vec<u8> =
        hex::decode("00033132310000000000000000000000000000000000000000000000000000000000").unwrap();
    let instruction: Token = Token::Bytes(instruction_bytes);

    let encoded: Vec<u8> = encode(&[destination_address, chain_id_token, chain_type, instruction]);
    let test_string: String = hex::encode(encoded);
    let encoded_string: String = base64::encode(test_string.clone());
    let msg: SudoMsg = SudoMsg::HandleInboundReq {
        sender: String::from("0x00967d76a67fde3a1987b971a91cf4fc6db14a3d"),
        chain_type: CHAIN_TYPE,
        source_chain_id: String::from(CHAIN_ID),
        payload: base64::decode(&encoded_string).unwrap(),
    };

    let result = sudo(&mut state, &env, msg).unwrap();
    if result.is_err() {
        println!("{:?}", result.as_ref().err());
        assert!(false);
        return;
    }
    let response = result.unwrap();
    assert_eq!(response.messages.len(), 1);

    let message = response.messages.get(0).unwrap();
    let router_msg = message.msg.clone();
    match router_msg {
        RouterMsg::OutboundBatchRequests { outbound_batch_requests } => {
            assert_eq!(outbound_batch_requests.len(), 1);
            let request: OutboundBatchRequest = outbound_batch_requests[0].clone();
            let contract_vec: Vec<u8> = request.contract_calls[0].destination_contract_address.clone();
            let contract_addess: String = hex::encode(contract_vec);
            assert_eq!(request.destination_chain_id, String::from("121"));
            assert_eq!(request.destination_chain_type, 0);
            assert_eq!(contract_addess, TO);
        }
    }
}

#[test]
fn test_execute_update_bridge_address() {
    let mut state = ContractState::new();
    let env = mock_env();
    let info = mock_info(INIT_ADDRESS);

    do_instantiate(&mut state, &env, &info);
    test_update_bridge_contract(&mut state, &env, &info);

    let to_address: Vec<u8> = hex::decode(TO).unwrap();

    let data: bool = is_white_listed_contract(&state, String::from(CHAIN_ID), CHAIN_TYPE, to_address).unwrap();
    assert_eq!(data, true);
}

#[test]
fn test_list_white_listed_contracts() {
    let mut state = ContractState::new();
    let env = mock_env();
    let info = mock_info(INIT_ADDRESS);

    do_instantiate(&mut state, &env, &info);
    test_update_bridge_contract(&mut state, &env, &info);

    let data = fetch_white_listed_contract(&state).unwrap();

    println!("white_listed contracts {:?}", data);

    let sender_address: Vec<u8> = hex::decode(SENDER).unwrap();
    let (contract_2, id_2, type_2) = data[0].clone();
    assert_eq!(contract_2, sender_address);
    assert_eq!(id_2, CHAIN_ID);
    assert_eq!(type_2, CHAIN_TYPE);

    let to_address: Vec<u8> = hex::decode(TO).unwrap();
    let (contract_one, id_one, type_one) = data[1].clone();
    assert_eq!(to_address, contract_one);
    assert_eq!(id_one, CHAIN_ID);
    assert_eq!(type_one, CHAIN_TYPE);
}

fn attribute_pairs(res: &Response) -> Vec<(String, String)> {
    res.attributes.iter().map(|a| (a.key.clone(), a.value.clone())).collect()
}

fn pairs(items: &[(&str, &str)]) -> Vec<(String, String)> {
    items.iter().map(|(k, v)| (k.to_string(), v.to_string())).collect()
}

#[test]
fn instantiate_records_owner_and_version() {
    let mut state = ContractState::new();
    let res = instantiate(&mut state, &mock_env(), &mock_info(INIT_ADDRESS), InstantiateMsg {}).unwrap();
    assert_eq!(attribute_pairs(&res), pairs(&[("action", "generic-data-transfer intstantiated")]));
    assert_eq!(state.load_owner().unwrap(), INIT_ADDRESS);
    let v = state.load_contract_version().unwrap();
    assert_eq!(v.contract, "generic-data-transfer");
    assert_eq!(v.version, "0.1.1");
    match query(&state, &mock_env(), QueryMsg::GetContractVersion {}).unwrap() {
        QueryResponse::ContractVersion(v) => assert_eq!(v.version, "0.1.1"),
        other => panic!("unexpected answer {:?}", other),
    }
}

#[test]
fn white_list_response_attributes() {
    let mut state = ContractState::new();
    do_instantiate(&mut state, &mock_env(), &mock_info(INIT_ADDRESS));
    let res = execute(
        &mut state,
        &mock_env(),
        &mock_info(INIT_ADDRESS),
        ExecuteMsg::WhiteListApplicationContract {
            chain_id: String::from("80001"),
            chain_type: 7,
            contract_address: vec![0xde, 0xad, 0x01],
        },
    )
    .unwrap();
    assert_eq!(
        attribute_pairs(&res),
        pairs(&[("chain_id", "80001"), ("chain_type", "7"), ("application", "dead01")])
    );
    assert!(res.messages.is_empty());
    assert!(res.events.is_empty());
}

#[test]
fn white_list_by_other_sender_is_refused() {
    let mut state = ContractState::new();
    do_instantiate(&mut state, &mock_env(), &mock_info(INIT_ADDRESS));
    let res = execute(
        &mut state,
        &mock_env(),
        &mock_info("intruder"),
        ExecuteMsg::WhiteListApplicationContract {
            chain_id: String::from(CHAIN_ID),
            chain_type: CHAIN_TYPE,
            contract_address: hex::decode(TO).unwrap(),
        },
    );
    assert_eq!(res, Err(StdError::GenericErr { msg: String::from("Unauthorised User") }));
    let listed = is_white_listed_contract(&state, String::from(CHAIN_ID), CHAIN_TYPE, hex::decode(TO).unwrap()).unwrap();
    assert_eq!(listed, false);
}

#[test]
fn white_list_before_instantiate_finds_no_owner() {
    let mut state = ContractState::new();
    let res = execute(
        &mut state,
        &mock_env(),
        &mock_info(INIT_ADDRESS),
        ExecuteMsg::DelistApplicationContract {
            chain_id: String::from(CHAIN_ID),
            chain_type: CHAIN_TYPE,
            contract_address: hex::decode(TO).unwrap(),
        },
    );
    assert_eq!(res, Err(StdError::NotFound { item: StoredItem::Owner }));
}

#[test]
fn delist_removes_only_that_contract() {
    let mut state = ContractState::new();
    let env = mock_env();
    let info = mock_info(INIT_ADDRESS);
    do_instantiate(&mut state, &env, &info);
    test_update_bridge_contract(&mut state, &env, &info);
    let res = execute(
        &mut state,
        &env,
        &info,
        ExecuteMsg::DelistApplicationContract {
            chain_id: String::from(CHAIN_ID),
            chain_type: CHAIN_TYPE,
            contract_address: hex::decode(TO).unwrap(),
        },
    )
    .unwrap();
    assert_eq!(attribute_pairs(&res), pairs(&[("chain_id", CHAIN_ID), ("chain_type", "0"), ("bridge_address", TO)]));
    assert!(!is_white_listed_contract(&state, String::from(CHAIN_ID), CHAIN_TYPE, hex::decode(TO).unwrap()).unwrap());
    assert!(is_white_listed_contract(&state, String::from(CHAIN_ID), CHAIN_TYPE, hex::decode(SENDER).unwrap()).unwrap());
    let data = fetch_white_listed_contract(&state).unwrap();
    assert_eq!(data, vec![(hex::decode(SENDER).unwrap(), String::from(CHAIN_ID), CHAIN_TYPE)]);
}

#[test]
fn whitelist_key_distinguishes_chain_type_and_id() {
    let mut state = ContractState::new();
    let env = mock_env();
    let info = mock_info(INIT_ADDRESS);
    do_instantiate(&mut state, &env, &info);
    test_update_bridge_contract(&mut state, &env, &info);
    assert!(!is_white_listed_contract(&state, String::from(CHAIN_ID), 1, hex::decode(TO).unwrap()).unwrap());
    assert!(!is_white_listed_contract(&state, String::from("12"), CHAIN_TYPE, hex::decode(TO).unwrap()).unwrap());
}

#[test]
fn update_replaces_the_whole_white_list() {
    let mut state = ContractState::new();
    let env = mock_env();
    let info = mock_info(INIT_ADDRESS);
    do_instantiate(&mut state, &env, &info);
    test_update_bridge_contract(&mut state, &env, &info);
    let contracts = vec![
        ApplicationContract { chain_id: String::from("5"), chain_type: 1, contract_address: vec![2, 2] },
        ApplicationContract { chain_id: String::from("5"), chain_type: 1, contract_address: vec![1] },
        ApplicationContract { chain_id: String::from("5"), chain_type: 1, contract_address: vec![2, 2] },
    ];
    let res = execute(&mut state, &env, &info, ExecuteMsg::WhiteListApplicationContracts { contracts }).unwrap();
    assert!(res.attributes.is_empty());
    let data = fetch_white_listed_contract(&state).unwrap();
    // A one-byte address sorts before a two-byte one: the key starts with the address length.
    assert_eq!(
        data,
        vec![(vec![1], String::from("5"), 1), (vec![2, 2], String::from("5"), 1)]
    );
    assert!(!is_white_listed_contract(&state, String::from(CHAIN_ID), CHAIN_TYPE, hex::decode(TO).unwrap()).unwrap());
}

#[test]
fn update_by_other_sender_keeps_white_list() {
    let mut state = ContractState::new();
    let env = mock_env();
    let info = mock_info(INIT_ADDRESS);
    do_instantiate(&mut state, &env, &info);
    test_update_bridge_contract(&mut state, &env, &info);
    let res = execute(
        &mut state,
        &env,
        &mock_info("someone"),
        ExecuteMsg::WhiteListApplicationContracts { contracts: vec![] },
    );
    assert_eq!(res, Err(StdError::GenericErr { msg: String::from("Unauthorised User") }));
    assert_eq!(fetch_white_listed_contract(&state).unwrap().len(), 2);
}

fn ack_msg(nonce: u64) -> SudoMsg {
    SudoMsg::HandleOutboundAck {
        outbound_tx_requested_by: String::from("router1abc"),
        destination_chain_type: 3,
        destination_chain_id: String::from("43113"),
        outbound_batch_nonce: nonce,
        contract_ack_responses: vec![true, false],
        execution_code: 5,
        execution_status: true,
    }
}

#[test]
fn ack_is_recorded_and_read_back() {
    let mut state = ContractState::new();
    let res = sudo(&mut state, &mock_env(), ack_msg(42)).unwrap().unwrap();
    assert_eq!(
        attribute_pairs(&res),
        pairs(&[
            ("sender", "router1abc"),
            ("destination_chain_type", "3"),
            ("destination_chain_id", "43113"),
            ("outbound_batch_nonce", "42"),
        ])
    );
    let q = QueryMsg::FetchAckData {
        destination_chain_id: String::from("43113"),
        destination_chain_type: 3,
        outbound_batch_nonce: 42,
    };
    assert_eq!(
        query(&state, &mock_env(), q).unwrap(),
        QueryResponse::AckData(String::from(
            "execution_code 5, execution_status true, contract_ack_responses [true, false]"
        ))
    );
    let missing = QueryMsg::FetchAckData {
        destination_chain_id: String::from("43113"),
        destination_chain_type: 3,
        outbound_batch_nonce: 41,
    };
    assert_eq!(
        query(&state, &mock_env(), missing),
        Err(StdError::NotFound { item: StoredItem::AcknowledgementStatus })
    );
}

#[test]
fn ack_with_no_responses() {
    let mut state = ContractState::new();
    let msg = SudoMsg::HandleOutboundAck {
        outbound_tx_requested_by: String::from("r"),
        destination_chain_type: 0,
        destination_chain_id: String::from("1"),
        outbound_batch_nonce: 0,
        contract_ack_responses: vec![],
        execution_code: 0,
        execution_status: false,
    };
    sudo(&mut state, &mock_env(), msg).unwrap().unwrap();
    let got = generic_data_transfer::query::fetch_ack_data(&state, String::from("1"), 0, 0).unwrap();
    assert_eq!(got, "execution_code 0, execution_status false, contract_ack_responses []");
}

#[test]
fn delist_undoes_white_list() {
    let mut state = ContractState::new();
    let env = mock_env();
    let info = mock_info(INIT_ADDRESS);
    do_instantiate(&mut state, &env, &info);
    test_update_bridge_contract(&mut state, &env, &info);
    let before = fetch_white_listed_contract(&state).unwrap();
    let entry = ExecuteMsg::WhiteListApplicationContract {
        chain_id: String::from("9"),
        chain_type: 2,
        contract_address: vec![7; 32],
    };
    execute(&mut state, &env, &info, entry).unwrap();
    assert_eq!(fetch_white_listed_contract(&state).unwrap().len(), 3);
    let gone = ExecuteMsg::DelistApplicationContract {
        chain_id: String::from("9"),
        chain_type: 2,
        contract_address: vec![7; 32],
    };
    execute(&mut state, &env, &info, gone).unwrap();
    assert_eq!(fetch_white_listed_contract(&state).unwrap(), before);
}

#[test]
fn listing_orders_by_chain_id_then_type() {
    let mut state = ContractState::new();
    let env = mock_env();
    let info = mock_info(INIT_ADDRESS);
    do_instantiate(&mut state, &env, &info);
    let contracts = vec![
        ApplicationContract { chain_id: String::from("b"), chain_type: 1, contract_address: vec![9] },
        ApplicationContract { chain_id: String::from("a"), chain_type: 256, contract_address: vec![9] },
        ApplicationContract { chain_id: String::from("a"), chain_type: 2, contract_address: vec![9] },
        ApplicationContract { chain_id: String::from("aa"), chain_type: 0, contract_address: vec![9] },
    ];
    execute(&mut state, &env, &info, ExecuteMsg::WhiteListApplicationContracts { contracts }).unwrap();
    let listed: Vec<(String, u32)> =
        fetch_white_listed_contract(&state).unwrap().into_iter().map(|(_, id, t)| (id, t)).collect();
    assert_eq!(
        listed,
        vec![
            (String::from("a"), 2),
            (String::from("a"), 256),
            (String::from("b"), 1),
            (String::from("aa"), 0),
        ]
    );
}

#[test]
fn update_twice_with_same_contracts_lists_the_same() {
    let mut state = ContractState::new();
    let env = mock_env();
    let info = mock_info(INIT_ADDRESS);
    do_instantiate(&mut state, &env, &info);
    let contracts = vec![
        ApplicationContract { chain_id: String::from("9"), chain_type: 2, contract_address: vec![7] },
        ApplicationContract { chain_id: String::from("10"), chain_type: 0, contract_address: vec![7] },
    ];
    execute(&mut state, &env, &info, ExecuteMsg::WhiteListApplicationContracts { contracts: contracts.clone() }).unwrap();
    let first = fetch_white_listed_contract(&state).unwrap();
    execute(&mut state, &env, &info, ExecuteMsg::WhiteListApplicationContracts { contracts }).unwrap();
    assert_eq!(fetch_white_listed_contract(&state).unwrap(), first);
    assert_eq!(first, vec![(vec![7], String::from("9"), 2), (vec![7], String::from("10"), 0)]);
}

#[test]
fn white_listed_follows_the_last_deciding_call() {
    let mut state = ContractState::new();
    let env = mock_env();
    let info = mock_info(INIT_ADDRESS);
    let listed = |state: &ContractState| {
        is_white_listed_contract(state, String::from("1"), 4, vec![0xaa]).unwrap()
    };
    do_instantiate(&mut state, &env, &info);
    assert!(!listed(&state));
    let entry = ExecuteMsg::WhiteListApplicationContract {
        chain_id: String::from("1"),
        chain_type: 4,
        contract_address: vec![0xaa],
    };
    execute(&mut state, &env, &info, entry.clone()).unwrap();
    assert!(listed(&state));
    // A call that does not name the key, or is refused, decides nothing.
    let other = ExecuteMsg::DelistApplicationContract {
        chain_id: String::from("1"),
        chain_type: 5,
        contract_address: vec![0xaa],
    };
    execute(&mut state, &env, &info, other).unwrap();
    let refused = ExecuteMsg::DelistApplicationContract {
        chain_id: String::from("1"),
        chain_type: 4,
        contract_address: vec![0xaa],
    };
    assert!(execute(&mut state, &env, &mock_info("intruder"), refused.clone()).is_err());
    assert!(listed(&state));
    execute(&mut state, &env, &info, ExecuteMsg::WhiteListApplicationContracts { contracts: vec![] }).unwrap();
    assert!(!listed(&state));
    execute(&mut state, &env, &info, entry).unwrap();
    execute(&mut state, &env, &info, refused).unwrap();
    assert!(!listed(&state));
}

#[test]
fn query_answers_what_the_query_functions_give() {
    let mut state = ContractState::new();
    let env = mock_env();
    let info = mock_info(INIT_ADDRESS);
    do_instantiate(&mut state, &env, &info);
    test_update_bridge_contract(&mut state, &env, &info);
    match query(&state, &env, QueryMsg::FetchWhiteListedContract {}).unwrap() {
        QueryResponse::WhiteListedContracts(keys) => assert_eq!(keys, fetch_white_listed_contract(&state).unwrap()),
        other => panic!("unexpected answer {:?}", other),
    }
    match query(
        &state,
        &env,
        QueryMsg::IsWhiteListedContract {
            chain_id: String::from(CHAIN_ID),
            chain_type: CHAIN_TYPE,
            contract_address: hex::decode(TO).unwrap(),
        },
    )
    .unwrap()
    {
        QueryResponse::IsWhiteListed(b) => assert!(b),
        other => panic!("unexpected answer {:?}", other),
    }
    assert_eq!(
        query(&state, &env, QueryMsg::FetchTempItem {}),
        Err(StdError::NotFound { item: StoredItem::TempOutboundRequests })
    );
    assert_eq!(
        query(&state, &env, QueryMsg::FetchRecentOutboundNonce {}),
        Err(StdError::NotFound { item: StoredItem::LastOutboundNonce })
    );
}
