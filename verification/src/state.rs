//! The contract's persistent state, with the loads and saves that its
//! handlers make.
use vstd::prelude::*;
use vstd::utf8::encode_utf8;

use crate::router::{duplicate_requests, requests_view, OutboundBatchRequest, OutboundBatchRequestView};
use crate::storage_key::white_list_key;
use crate::string_map::StringMap;
use crate::types::{ContractVersion, ContractVersionView, StdError, StoredItem};
use crate::white_list::{lists_in_key_order, listed_view, white_list_key_fits, WhiteList, WhiteListedView};

verus! {

/// Everything the contract keeps between calls.
pub struct ContractState {
    owner: Option<String>,
    contract_version: Option<ContractVersion>,
    white_listed_contracts: WhiteList,
    ack_status: StringMap<String>,
    last_outbound_nonce: Option<u64>,
    temp_outbound_requests: Option<Vec<OutboundBatchRequest>>,
    outbound_calls_state: StringMap<OutboundBatchRequest>,
}

/// The contract's state as mathematical values. `None` stands for a value never stored.
pub struct ContractStateView {
    pub owner: Option<Seq<char>>,
    pub contract_version: Option<ContractVersionView>,
    /// Whitelisted contracts by storage key.
    pub white_listed: Map<Seq<u8>, WhiteListedView>,
    /// Acknowledgement records by acknowledgement key.
    pub ack_status: Map<Seq<char>, Seq<char>>,
    pub last_outbound_nonce: Option<u64>,
    pub temp_outbound_requests: Option<Seq<OutboundBatchRequestView>>,
    /// Outbound requests by acknowledgement key.
    pub outbound_calls: Map<Seq<char>, OutboundBatchRequestView>,
}

/// The state of a contract that has stored nothing yet.
pub open spec fn empty_state() -> ContractStateView {
    ContractStateView {
        owner: None,
        contract_version: None,
        white_listed: Map::empty(),
        ack_status: Map::empty(),
        last_outbound_nonce: None,
        temp_outbound_requests: None,
        outbound_calls: Map::empty(),
    }
}

/// The storage key of a whitelist entry.
pub open spec fn white_listed_key(contract_address: Seq<u8>, chain_id: Seq<char>, chain_type: u32) -> Seq<u8> {
    white_list_key(contract_address, encode_utf8(chain_id), chain_type)
}

impl View for ContractState {
    type V = ContractStateView;

    closed spec fn view(&self) -> ContractStateView {
        ContractStateView {
            owner: match self.owner {
                Some(o) => Some(o@),
                None => None,
            },
            contract_version: match self.contract_version {
                Some(v) => Some(v@),
                None => None,
            },
            white_listed: self.white_listed_contracts.spec_map(),
            ack_status: self.ack_status.spec_map().map_values(|s: String| s@),
            last_outbound_nonce: self.last_outbound_nonce,
            temp_outbound_requests: match self.temp_outbound_requests {
                Some(r) => Some(requests_view(r@)),
                None => None,
            },
            outbound_calls: self.outbound_calls_state.spec_map().map_values(|r: OutboundBatchRequest| r@),
        }
    }
}

impl ContractState {
    /// The state's collections are well formed.
    pub closed spec fn wf(&self) -> bool {
        &&& self.white_listed_contracts.wf()
        &&& self.ack_status.wf()
        &&& self.outbound_calls_state.wf()
    }

    /// A state with nothing stored.
    pub fn new() -> (res: ContractState)
        ensures
            res.wf(),
            res@ == empty_state(),
    {
        let res = ContractState {
            owner: None,
            contract_version: None,
            white_listed_contracts: WhiteList::new(),
            ack_status: StringMap::new(),
            last_outbound_nonce: None,
            temp_outbound_requests: None,
            outbound_calls_state: StringMap::new(),
        };
        assert(res@.ack_status =~= Map::empty());
        assert(res@.outbound_calls =~= Map::empty());
        res
    }

    /// Every whitelisted contract sits under its own storage key.
    pub proof fn lemma_white_listed_keys(&self)
        requires
            self.wf(),
        ensures
            forall|k: Seq<u8>| #[trigger]
                self@.white_listed.dom().contains(k) ==> white_listed_key(
                    self@.white_listed[k].contract_address,
                    self@.white_listed[k].chain_id,
                    self@.white_listed[k].chain_type,
                ) == k && white_list_key_fits(
                    self@.white_listed[k].contract_address,
                    self@.white_listed[k].chain_id,
                ),
    {
        self.white_listed_contracts.lemma_keys_match();
    }

    /// The owner, or `NotFound` if none was stored.
    pub fn load_owner(&self) -> (res: Result<String, StdError>)
        ensures
            match self@.owner {
                Some(o) => res matches Ok(v) && v@ == o,
                None => res == Err::<String, StdError>(StdError::NotFound { item: StoredItem::Owner }),
            },
    {
        match &self.owner {
            Some(o) => Ok(o.clone()),
            None => Err(StdError::NotFound { item: StoredItem::Owner }),
        }
    }

    pub fn save_owner(&mut self, owner: String)
        requires
            old(self).wf(),
        ensures
            final(self).wf(),
            final(self)@ == (ContractStateView { owner: Some(owner@), ..old(self)@ }),
    {
        self.owner = Some(owner);
    }

    /// The recorded contract name and version, or `NotFound`.
    pub fn load_contract_version(&self) -> (res: Result<ContractVersion, StdError>)
        ensures
            match self@.contract_version {
                Some(v) => res matches Ok(r) && r@ == v,
                None => res == Err::<ContractVersion, StdError>(StdError::NotFound { item: StoredItem::ContractInfo }),
            },
    {
        match &self.contract_version {
            Some(v) => Ok(v.duplicate()),
            None => Err(StdError::NotFound { item: StoredItem::ContractInfo }),
        }
    }

    pub fn save_contract_version(&mut self, version: ContractVersion)
        requires
            old(self).wf(),
        ensures
            final(self).wf(),
            final(self)@ == (ContractStateView { contract_version: Some(version@), ..old(self)@ }),
    {
        self.contract_version = Some(version);
    }

    /// Whether a whitelist entry is stored under the contract's key.
    pub fn has_white_listed(&self, contract_address: &Vec<u8>, chain_id: &String, chain_type: u32) -> (res: bool)
        requires
            self.wf(),
            white_list_key_fits(contract_address@, chain_id@),
        ensures
            res == self@.white_listed.dom().contains(white_listed_key(contract_address@, chain_id@, chain_type)),
    {
        self.white_listed_contracts.contains(contract_address, chain_id, chain_type)
    }

    pub fn save_white_listed(&mut self, contract_address: Vec<u8>, chain_id: String, chain_type: u32)
        requires
            old(self).wf(),
            white_list_key_fits(contract_address@, chain_id@),
        ensures
            final(self).wf(),
            final(self)@ == (ContractStateView {
                white_listed: old(self)@.white_listed.insert(
                    white_listed_key(contract_address@, chain_id@, chain_type),
                    WhiteListedView { contract_address: contract_address@, chain_id: chain_id@, chain_type },
                ),
                ..old(self)@
            }),
    {
        self.white_listed_contracts.save(contract_address, chain_id, chain_type);
    }

    pub fn remove_white_listed(&mut self, contract_address: &Vec<u8>, chain_id: &String, chain_type: u32)
        requires
            old(self).wf(),
            white_list_key_fits(contract_address@, chain_id@),
        ensures
            final(self).wf(),
            final(self)@ == (ContractStateView {
                white_listed: old(self)@.white_listed.remove(white_listed_key(contract_address@, chain_id@, chain_type)),
                ..old(self)@
            }),
    {
        self.white_listed_contracts.remove(contract_address, chain_id, chain_type);
    }

    /// All whitelisted contracts in ascending order of their storage keys.
    pub fn white_listed_keys(&self) -> (res: Vec<(Vec<u8>, String, u32)>)
        requires
            self.wf(),
        ensures
            lists_in_key_order(self@.white_listed, res@.map_values(|t: (Vec<u8>, String, u32)| listed_view(t))),
    {
        self.white_listed_contracts.keys()
    }

    /// The acknowledgement record under `key`, or `NotFound`.
    pub fn load_ack_status(&self, key: &String) -> (res: Result<String, StdError>)
        requires
            self.wf(),
        ensures
            match res {
                Ok(v) => self@.ack_status.dom().contains(key@) && v@ == self@.ack_status[key@],
                Err(e) => !self@.ack_status.dom().contains(key@) && e == StdError::NotFound {
                    item: StoredItem::AcknowledgementStatus,
                },
            },
    {
        match self.ack_status.get(key) {
            Some(v) => Ok(v.clone()),
            None => Err(StdError::NotFound { item: StoredItem::AcknowledgementStatus }),
        }
    }

    pub fn save_ack_status(&mut self, key: String, record: String)
        requires
            old(self).wf(),
        ensures
            final(self).wf(),
            final(self)@ == (ContractStateView {
                ack_status: old(self)@.ack_status.insert(key@, record@),
                ..old(self)@
            }),
    {
        let ghost before = self.ack_status.spec_map();
        let ghost k = key@;
        let ghost r = record;
        self.ack_status.insert(key, record);
        assert(self.ack_status.spec_map().map_values(|s: String| s@) =~= before.map_values(|s: String| s@).insert(
            k,
            r@,
        ));
    }

    /// How many acknowledgement records are stored.
    pub fn ack_status_len(&self) -> (res: usize)
        requires
            self.wf(),
        ensures
            res == self@.ack_status.dom().len(),
    {
        assert(self@.ack_status.dom() =~= self.ack_status.spec_map().dom());
        self.ack_status.len()
    }

    /// The acknowledgement record at position `i`, for walking all of them.
    pub fn ack_status_at(&self, i: usize) -> (res: (&String, &String))
        requires
            self.wf(),
            i < self@.ack_status.dom().len(),
        ensures
            self@.ack_status.dom().contains(res.0@),
            self@.ack_status[res.0@] == res.1@,
    {
        assert(self@.ack_status.dom() =~= self.ack_status.spec_map().dom());
        self.ack_status.entry_at(i)
    }

    /// The nonce of the most recent outbound batch, or `NotFound`.
    pub fn load_last_outbound_nonce(&self) -> (res: Result<u64, StdError>)
        ensures
            match self@.last_outbound_nonce {
                Some(n) => res == Ok::<u64, StdError>(n),
                None => res == Err::<u64, StdError>(StdError::NotFound { item: StoredItem::LastOutboundNonce }),
            },
    {
        match self.last_outbound_nonce {
            Some(n) => Ok(n),
            None => Err(StdError::NotFound { item: StoredItem::LastOutboundNonce }),
        }
    }

    pub fn save_last_outbound_nonce(&mut self, nonce: u64)
        requires
            old(self).wf(),
        ensures
            final(self).wf(),
            final(self)@ == (ContractStateView { last_outbound_nonce: Some(nonce), ..old(self)@ }),
    {
        self.last_outbound_nonce = Some(nonce);
    }

    /// The outbound requests that wait for their reply, or `NotFound`.
    pub fn load_temp_outbound_requests(&self) -> (res: Result<Vec<OutboundBatchRequest>, StdError>)
        ensures
            match self@.temp_outbound_requests {
                Some(r) => res matches Ok(v) && requests_view(v@) == r,
                None => res == Err::<Vec<OutboundBatchRequest>, StdError>(
                    StdError::NotFound { item: StoredItem::TempOutboundRequests },
                ),
            },
    {
        match &self.temp_outbound_requests {
            Some(r) => Ok(duplicate_requests(r)),
            None => Err(StdError::NotFound { item: StoredItem::TempOutboundRequests }),
        }
    }

    pub fn save_temp_outbound_requests(&mut self, requests: Vec<OutboundBatchRequest>)
        requires
            old(self).wf(),
        ensures
            final(self).wf(),
            final(self)@ == (ContractStateView {
                temp_outbound_requests: Some(requests_view(requests@)),
                ..old(self)@
            }),
    {
        self.temp_outbound_requests = Some(requests);
    }

    /// The outbound request recorded under `key`, or `NotFound`.
    pub fn load_outbound_calls(&self, key: &String) -> (res: Result<OutboundBatchRequest, StdError>)
        requires
            self.wf(),
        ensures
            match res {
                Ok(v) => self@.outbound_calls.dom().contains(key@) && v@ == self@.outbound_calls[key@],
                Err(e) => !self@.outbound_calls.dom().contains(key@) && e == StdError::NotFound {
                    item: StoredItem::OutboundCallsState,
                },
            },
    {
        match self.outbound_calls_state.get(key) {
            Some(v) => Ok(v.duplicate()),
            None => Err(StdError::NotFound { item: StoredItem::OutboundCallsState }),
        }
    }

    pub fn save_outbound_calls(&mut self, key: String, request: OutboundBatchRequest)
        requires
            old(self).wf(),
        ensures
            final(self).wf(),
            final(self)@ == (ContractStateView {
                outbound_calls: old(self)@.outbound_calls.insert(key@, request@),
                ..old(self)@
            }),
    {
        let ghost before = self.outbound_calls_state.spec_map();
        let ghost k = key@;
        let ghost r = request;
        self.outbound_calls_state.insert(key, request);
        assert(self.outbound_calls_state.spec_map().map_values(|q: OutboundBatchRequest| q@)
            =~= before.map_values(|q: OutboundBatchRequest| q@).insert(k, r@));
    }

    /// How many outbound requests are recorded by key.
    pub fn outbound_calls_len(&self) -> (res: usize)
        requires
            self.wf(),
        ensures
            res == self@.outbound_calls.dom().len(),
    {
        assert(self@.outbound_calls.dom() =~= self.outbound_calls_state.spec_map().dom());
        self.outbound_calls_state.len()
    }

    /// The recorded outbound request at position `i`, for walking all of them.
    pub fn outbound_calls_at(&self, i: usize) -> (res: (&String, &OutboundBatchRequest))
        requires
            self.wf(),
            i < self@.outbound_calls.dom().len(),
        ensures
            self@.outbound_calls.dom().contains(res.0@),
            self@.outbound_calls[res.0@] == res.1@,
    {
        assert(self@.outbound_calls.dom() =~= self.outbound_calls_state.spec_map().dom());
        self.outbound_calls_state.entry_at(i)
    }
}

} // verus!
