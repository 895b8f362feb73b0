//! The values that the contract exchanges with its host chain: the block
//! environment, the caller, responses, errors and the stored version record.
use vstd::prelude::*;
use vstd::string::*;

use crate::router::{OutboundBatchResponses, RouterMsg, RouterMsgView};

verus! {

/// The block the contract runs in, and the contract's own address.
#[derive(Clone, Debug, PartialEq, Eq)]
pub struct Env {
    pub block_height: u64,
    /// Block time in nanoseconds since the UNIX epoch.
    pub block_time_nanos: u64,
    pub contract_address: String,
}

/// Seconds since the UNIX epoch of a block time given in nanoseconds.
pub open spec fn spec_block_seconds(nanos: u64) -> u64 {
    (nanos / 1_000_000_000) as u64
}

impl Env {
    /// The block time in whole seconds.
    pub fn block_seconds(&self) -> (res: u64)
        ensures
            res == spec_block_seconds(self.block_time_nanos),
    {
        self.block_time_nanos / 1_000_000_000
    }
}

/// Who sent the message that is being executed.
#[derive(Clone, Debug, PartialEq, Eq)]
pub struct MessageInfo {
    pub sender: String,
}

/// A key/value pair that a response or an event carries.
#[derive(Clone, Debug, PartialEq, Eq)]
pub struct Attribute {
    pub key: String,
    pub value: String,
}

pub struct AttributeView {
    pub key: Seq<char>,
    pub value: Seq<char>,
}

impl View for Attribute {
    type V = AttributeView;

    open spec fn view(&self) -> AttributeView {
        AttributeView { key: self.key@, value: self.value@ }
    }
}

/// The attribute with the given key and value.
pub open spec fn attr(key: Seq<char>, value: Seq<char>) -> AttributeView {
    AttributeView { key, value }
}

pub open spec fn attributes_view(attrs: Seq<Attribute>) -> Seq<AttributeView> {
    attrs.map_values(|a: Attribute| a@)
}

/// An event that a response emits.
#[derive(Clone, Debug, PartialEq, Eq)]
pub struct Event {
    pub ty: String,
    pub attributes: Vec<Attribute>,
}

pub struct EventView {
    pub ty: Seq<char>,
    pub attributes: Seq<AttributeView>,
}

impl View for Event {
    type V = EventView;

    open spec fn view(&self) -> EventView {
        EventView { ty: self.ty@, attributes: attributes_view(self.attributes@) }
    }
}

impl Event {
    /// An event of the given type with no attributes.
    pub fn new(ty: String) -> (res: Event)
        ensures
            res@ == (EventView { ty: ty@, attributes: Seq::empty() }),
    {
        let res = Event { ty, attributes: Vec::new() };
        assert(attributes_view(res.attributes@) =~= Seq::empty());
        res
    }

    /// This event with one more attribute at the end.
    pub fn add_attribute(self, key: String, value: String) -> (res: Event)
        ensures
            res@ == (EventView {
                ty: self@.ty,
                attributes: self@.attributes.push(attr(key@, value@)),
            }),
    {
        let mut ev = self;
        let ghost before = ev.attributes@;
        ev.attributes.push(Attribute { key, value });
        assert(attributes_view(ev.attributes@) =~= attributes_view(before).push(attr(key@, value@)));
        ev
    }
}

/// When the host calls the contract back with the outcome of a sub-message.
#[derive(Clone, Copy, Debug, PartialEq, Eq, Structural)]
pub enum ReplyOn {
    Always,
    Error,
    Success,
    Never,
}

/// A message that the contract asks the host to dispatch.
#[derive(Clone, Debug, PartialEq, Eq)]
pub struct SubMsg {
    pub id: u64,
    pub msg: RouterMsg,
    pub gas_limit: Option<u64>,
    pub reply_on: ReplyOn,
}

pub struct SubMsgView {
    pub id: u64,
    pub msg: RouterMsgView,
    pub gas_limit: Option<u64>,
    pub reply_on: ReplyOn,
}

impl View for SubMsg {
    type V = SubMsgView;

    open spec fn view(&self) -> SubMsgView {
        SubMsgView { id: self.id, msg: self.msg@, gas_limit: self.gas_limit, reply_on: self.reply_on }
    }
}

/// What a successful call hands back to the host.
#[derive(Clone, Debug, PartialEq, Eq)]
pub struct Response {
    pub messages: Vec<SubMsg>,
    pub attributes: Vec<Attribute>,
    pub events: Vec<Event>,
}

pub struct ResponseView {
    pub messages: Seq<SubMsgView>,
    pub attributes: Seq<AttributeView>,
    pub events: Seq<EventView>,
}

impl View for Response {
    type V = ResponseView;

    open spec fn view(&self) -> ResponseView {
        ResponseView {
            messages: self.messages@.map_values(|m: SubMsg| m@),
            attributes: attributes_view(self.attributes@),
            events: self.events@.map_values(|e: Event| e@),
        }
    }
}

/// The response with no messages, attributes or events.
pub open spec fn empty_response() -> ResponseView {
    ResponseView { messages: Seq::empty(), attributes: Seq::empty(), events: Seq::empty() }
}

/// The response that carries only the given attributes.
pub open spec fn attributes_response(attrs: Seq<AttributeView>) -> ResponseView {
    ResponseView { messages: Seq::empty(), attributes: attrs, events: Seq::empty() }
}

impl Response {
    /// The empty response.
    pub fn new() -> (res: Response)
        ensures
            res@ == empty_response(),
    {
        let res = Response { messages: Vec::new(), attributes: Vec::new(), events: Vec::new() };
        assert(res@.messages =~= Seq::empty());
        assert(res@.attributes =~= Seq::empty());
        assert(res@.events =~= Seq::empty());
        res
    }

    /// This response with one more attribute at the end.
    pub fn add_attribute(self, key: String, value: String) -> (res: Response)
        ensures
            res@ == (ResponseView { attributes: self@.attributes.push(attr(key@, value@)), ..self@ }),
    {
        let mut r = self;
        let ghost before = r.attributes@;
        r.attributes.push(Attribute { key, value });
        assert(attributes_view(r.attributes@) =~= attributes_view(before).push(attr(key@, value@)));
        r
    }

    /// This response with one more event at the end.
    pub fn add_event(self, event: Event) -> (res: Response)
        ensures
            res@ == (ResponseView { events: self@.events.push(event@), ..self@ }),
    {
        let mut r = self;
        let ghost before = r.events@;
        r.events.push(event);
        assert(r.events@.map_values(|e: Event| e@) =~= before.map_values(|e: Event| e@).push(event@));
        r
    }

    /// This response with one more sub-message at the end.
    pub fn add_submessage(self, msg: SubMsg) -> (res: Response)
        ensures
            res@ == (ResponseView { messages: self@.messages.push(msg@), ..self@ }),
    {
        let mut r = self;
        let ghost before = r.messages@;
        r.messages.push(msg);
        assert(r.messages@.map_values(|m: SubMsg| m@) =~= before.map_values(|m: SubMsg| m@).push(msg@));
        r
    }
}

/// The stored values that a load can find missing.
#[derive(Clone, Copy, Debug, PartialEq, Eq, Structural)]
pub enum StoredItem {
    Owner,
    ContractInfo,
    AcknowledgementStatus,
    OutboundCallsState,
    TempOutboundRequests,
    LastOutboundNonce,
}

/// Why a call failed.
#[derive(Clone, Debug, PartialEq, Eq)]
pub enum StdError {
    /// A failure described by a message.
    GenericErr { msg: String },
    /// A stored value that the call needs is not there.
    NotFound { item: StoredItem },
}

pub enum StdErrorView {
    GenericErr { msg: Seq<char> },
    NotFound { item: StoredItem },
}

impl View for StdError {
    type V = StdErrorView;

    open spec fn view(&self) -> StdErrorView {
        match self {
            StdError::GenericErr { msg } => StdErrorView::GenericErr { msg: msg@ },
            StdError::NotFound { item } => StdErrorView::NotFound { item: *item },
        }
    }
}

/// A call's result as mathematical values.
pub open spec fn result_view(r: Result<Response, StdError>) -> Result<ResponseView, StdErrorView> {
    match r {
        Ok(x) => Ok(x@),
        Err(e) => Err(e@),
    }
}

/// The result of a call that can also abort, as mathematical values; `None` is an abort.
pub open spec fn outcome_view(r: Option<Result<Response, StdError>>) -> Option<Result<ResponseView, StdErrorView>> {
    match r {
        Some(x) => Some(result_view(x)),
        None => None,
    }
}

/// The error with the given message.
pub open spec fn generic_err(msg: Seq<char>) -> StdErrorView {
    StdErrorView::GenericErr { msg }
}

/// The name and version of the code that a contract runs, as recorded in its state.
#[derive(Clone, Debug, PartialEq, Eq)]
pub struct ContractVersion {
    pub contract: String,
    pub version: String,
}

pub struct ContractVersionView {
    pub contract: Seq<char>,
    pub version: Seq<char>,
}

impl View for ContractVersion {
    type V = ContractVersionView;

    open spec fn view(&self) -> ContractVersionView {
        ContractVersionView { contract: self.contract@, version: self.version@ }
    }
}

impl ContractVersion {
    /// A copy of this record.
    pub fn duplicate(&self) -> (res: ContractVersion)
        ensures
            res@ == self@,
    {
        ContractVersion { contract: self.contract.clone(), version: self.version.clone() }
    }
}

/// The outcome of a sub-message, as the host reports it back.
#[derive(Clone, Debug, PartialEq, Eq)]
pub enum SubMsgResult {
    Success(SubMsgResponse),
    Failure(String),
}

/// What a successful sub-message produced. Its data, when present, is the
/// Router chain's answer to an outbound batch request, already read from
/// its serialized form.
#[derive(Clone, Debug, PartialEq, Eq)]
pub struct SubMsgResponse {
    pub events: Vec<Event>,
    pub data: Option<OutboundBatchResponses>,
}

/// The host's call back with the outcome of a sub-message.
#[derive(Clone, Debug, PartialEq, Eq)]
pub struct Reply {
    pub id: u64,
    pub result: SubMsgResult,
}

/// A string made from a literal.
pub fn lit(s: &str) -> (res: String)
    ensures
        res@ == s@,
{
    String::from_str(s)
}

} // verus!
