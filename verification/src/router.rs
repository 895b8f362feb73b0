//! The messages that the contract exchanges with the Router chain: outbound
//! batch requests it emits, the privileged calls it receives, and the
//! responses that come back for its outbound batches.
use vstd::prelude::*;

verus! {

/// An amount of one denomination.
#[derive(Clone, Debug, PartialEq, Eq)]
pub struct Coin {
    pub denom: String,
    pub amount: u128,
}

pub struct CoinView {
    pub denom: Seq<char>,
    pub amount: u128,
}

impl View for Coin {
    type V = CoinView;

    open spec fn view(&self) -> CoinView {
        CoinView { denom: self.denom@, amount: self.amount }
    }
}

impl Coin {
    pub fn duplicate(&self) -> (res: Coin)
        ensures
            res@ == self@,
    {
        Coin { denom: self.denom.clone(), amount: self.amount }
    }
}

/// One call of a contract on the destination chain.
#[derive(Clone, Debug, PartialEq, Eq)]
pub struct ContractCall {
    pub destination_contract_address: Vec<u8>,
    pub payload: Vec<u8>,
}

pub struct ContractCallView {
    pub destination_contract_address: Seq<u8>,
    pub payload: Seq<u8>,
}

impl View for ContractCall {
    type V = ContractCallView;

    open spec fn view(&self) -> ContractCallView {
        ContractCallView {
            destination_contract_address: self.destination_contract_address@,
            payload: self.payload@,
        }
    }
}

impl ContractCall {
    pub fn duplicate(&self) -> (res: ContractCall)
        ensures
            res@ == self@,
    {
        let a = self.destination_contract_address.clone();
        let p = self.payload.clone();
        assert(a@ =~= self.destination_contract_address@);
        assert(p@ =~= self.payload@);
        ContractCall { destination_contract_address: a, payload: p }
    }
}

pub open spec fn calls_view(calls: Seq<ContractCall>) -> Seq<ContractCallView> {
    calls.map_values(|c: ContractCall| c@)
}

/// A batch of contract calls that the Router chain is asked to carry to a destination chain.
#[derive(Clone, Debug, PartialEq, Eq)]
pub struct OutboundBatchRequest {
    pub destination_chain_type: u32,
    pub destination_chain_id: String,
    pub contract_calls: Vec<ContractCall>,
    pub relayer_fee: Coin,
    pub outgoing_tx_fee: Coin,
    pub is_atomic: bool,
    pub exp_timestamp: u64,
}

pub struct OutboundBatchRequestView {
    pub destination_chain_type: u32,
    pub destination_chain_id: Seq<char>,
    pub contract_calls: Seq<ContractCallView>,
    pub relayer_fee: CoinView,
    pub outgoing_tx_fee: CoinView,
    pub is_atomic: bool,
    pub exp_timestamp: u64,
}

impl View for OutboundBatchRequest {
    type V = OutboundBatchRequestView;

    open spec fn view(&self) -> OutboundBatchRequestView {
        OutboundBatchRequestView {
            destination_chain_type: self.destination_chain_type,
            destination_chain_id: self.destination_chain_id@,
            contract_calls: calls_view(self.contract_calls@),
            relayer_fee: self.relayer_fee@,
            outgoing_tx_fee: self.outgoing_tx_fee@,
            is_atomic: self.is_atomic,
            exp_timestamp: self.exp_timestamp,
        }
    }
}

pub open spec fn requests_view(reqs: Seq<OutboundBatchRequest>) -> Seq<OutboundBatchRequestView> {
    reqs.map_values(|r: OutboundBatchRequest| r@)
}

impl OutboundBatchRequest {
    /// A copy of this request.
    pub fn duplicate(&self) -> (res: OutboundBatchRequest)
        ensures
            res@ == self@,
    {
        let mut calls: Vec<ContractCall> = Vec::new();
        let n = self.contract_calls.len();
        for i in 0..n
            invariant
                n == self.contract_calls@.len(),
                calls@.len() == i,
                forall|j: int| 0 <= j < i ==> #[trigger] calls@[j]@ == self.contract_calls@[j]@,
        {
            calls.push(self.contract_calls[i].duplicate());
        }
        assert(calls_view(calls@) =~= calls_view(self.contract_calls@));
        OutboundBatchRequest {
            destination_chain_type: self.destination_chain_type,
            destination_chain_id: self.destination_chain_id.clone(),
            contract_calls: calls,
            relayer_fee: self.relayer_fee.duplicate(),
            outgoing_tx_fee: self.outgoing_tx_fee.duplicate(),
            is_atomic: self.is_atomic,
            exp_timestamp: self.exp_timestamp,
        }
    }
}

/// A copy of a list of requests.
pub fn duplicate_requests(reqs: &Vec<OutboundBatchRequest>) -> (res: Vec<OutboundBatchRequest>)
    ensures
        requests_view(res@) == requests_view(reqs@),
{
    let mut out: Vec<OutboundBatchRequest> = Vec::new();
    let n = reqs.len();
    for i in 0..n
        invariant
            n == reqs@.len(),
            out@.len() == i,
            forall|j: int| 0 <= j < i ==> #[trigger] out@[j]@ == reqs@[j]@,
    {
        out.push(reqs[i].duplicate());
    }
    assert(requests_view(out@) =~= requests_view(reqs@));
    out
}

/// The custom message that the contract sends to the Router chain.
#[derive(Clone, Debug, PartialEq, Eq)]
pub enum RouterMsg {
    OutboundBatchRequests { outbound_batch_requests: Vec<OutboundBatchRequest> },
}

pub enum RouterMsgView {
    OutboundBatchRequests { outbound_batch_requests: Seq<OutboundBatchRequestView> },
}

impl View for RouterMsg {
    type V = RouterMsgView;

    open spec fn view(&self) -> RouterMsgView {
        match self {
            RouterMsg::OutboundBatchRequests { outbound_batch_requests } => RouterMsgView::OutboundBatchRequests {
                outbound_batch_requests: requests_view(outbound_batch_requests@),
            },
        }
    }
}

/// The privileged calls that the Router chain makes into the contract.
#[derive(Clone, Debug, PartialEq, Eq)]
pub enum SudoMsg {
    /// A request that arrived from another chain.
    HandleInboundReq { sender: String, chain_type: u32, source_chain_id: String, payload: Vec<u8> },
    /// The acknowledgement of an outbound batch that the contract requested.
    HandleOutboundAck {
        outbound_tx_requested_by: String,
        destination_chain_type: u32,
        destination_chain_id: String,
        outbound_batch_nonce: u64,
        contract_ack_responses: Vec<bool>,
        execution_code: u64,
        execution_status: bool,
    },
}

/// What the Router chain answers for one outbound batch request.
#[derive(Clone, Debug, PartialEq, Eq)]
pub struct OutboundBatchResponse {
    pub outbound_batch_nonce: u64,
}

/// The answers for all outbound batch requests of one sub-message.
#[derive(Clone, Debug, PartialEq, Eq)]
pub struct OutboundBatchResponses {
    pub outbound_batch_responses: Vec<OutboundBatchResponse>,
}

} // verus!
