//! The events that a node and its contract handler exchange, and their one-line descriptions.
use vstd::prelude::*;

use crate::contract::rendering::debug_delegate_key;
use crate::contract::rendering::debug_instance_id;
use crate::contract::rendering::display_contract_key;
use crate::contract::rendering::display_state;
use crate::text::append_decimal;
use crate::text::append_hex;

verus! {

use crate::contract::rendering::code_hash_text;
use crate::contract::rendering::contract_key_text;
use crate::contract::rendering::delegate_key_debug;
use crate::contract::rendering::instance_id_debug;
use crate::contract::rendering::state_text;
use crate::text::decimal;
use crate::text::hex;
use crate::text::leading;

/// The identifier of a contract instance.
#[derive(Debug, Clone, Copy)]
pub struct ContractInstanceId {
    /// The hash of the code and the parameters.
    pub bytes: [u8; 32],
}

/// The key of a contract.
#[derive(Debug, Clone, Copy)]
pub struct ContractKey {
    /// The contract with these parameters.
    pub instance: ContractInstanceId,
    /// The hash of the code.
    pub code: [u8; 32],
}

/// The key of a delegate.
#[derive(Debug, Clone, Copy)]
pub struct DelegateKey {
    /// The hash of the code and the parameters.
    pub key: [u8; 32],
    /// The hash of the code.
    pub code_hash: [u8; 32],
}

/// A request to a delegate.
#[derive(Debug)]
pub struct DelegateRequest {
    /// The delegate that the request is for.
    pub key: DelegateKey,
    /// The encoded request.
    pub body: Vec<u8>,
}

/// The state of a contract.
#[derive(Debug)]
pub struct WrappedState {
    /// The bytes of the state.
    pub bytes: Vec<u8>,
}

/// A contract: its code and its parameters.
#[derive(Debug)]
pub struct ContractContainer {
    /// The key of the contract.
    pub key: ContractKey,
    /// The bytes of the code.
    pub code: Vec<u8>,
    /// The bytes of the parameters.
    pub params: Vec<u8>,
}

/// The contracts on which another one depends, with their states where these are known.
#[derive(Debug)]
pub struct RelatedContracts {
    /// The contracts.
    pub entries: Vec<(ContractInstanceId, Option<WrappedState>)>,
}

/// What a contract is updated with.
#[derive(Debug)]
pub enum UpdateData {
    /// A new state.
    State(Vec<u8>),
    /// A change of the state.
    Delta(Vec<u8>),
    /// A new state and a change of it.
    StateAndDelta { state: Vec<u8>, delta: Vec<u8> },
    /// A new state of a related contract.
    RelatedState { related_to: ContractInstanceId, state: Vec<u8> },
    /// A change of the state of a related contract.
    RelatedDelta { related_to: ContractInstanceId, delta: Vec<u8> },
    /// A new state of a related contract and a change of it.
    RelatedStateAndDelta { related_to: ContractInstanceId, state: Vec<u8>, delta: Vec<u8> },
}

/// Why an executor could not do what it was asked for.
#[derive(Debug)]
pub struct ExecutorError {
    /// The reason in words.
    pub message: String,
}

/// What is stored of a contract.
#[derive(Debug)]
pub struct StoreResponse {
    /// The state, where there is one.
    pub state: Option<WrappedState>,
    /// The contract, where it was asked for and is known.
    pub contract: Option<ContractContainer>,
}

/// The number of a client of the node.
#[derive(Debug, Clone, Copy, PartialEq, Eq, Hash, Structural)]
pub struct ClientId(pub usize);

/// An event between the node and its contract handler. `L` is the handle of a client that listens
/// for updates, `Q` the handle to which the result of a query goes.
#[derive(Debug)]
pub enum ContractHandlerEvent<L, Q> {
    /// A request to a delegate.
    DelegateRequest { req: DelegateRequest, attested_contract: Option<ContractInstanceId> },
    /// What the delegate sends, every message in its encoded form.
    DelegateResponse(Vec<Vec<u8>>),
    /// Try to push/put a new value into the contract
    PutQuery {
        key: ContractKey,
        state: WrappedState,
        related_contracts: RelatedContracts,
        contract: Option<ContractContainer>,
    },
    /// The response to a push query
    PutResponse { new_value: Result<WrappedState, ExecutorError> },
    /// Fetch a supposedly existing contract value in this node, and optionally the contract itself
    GetQuery { key: ContractKey, return_contract_code: bool },
    /// The response to a get query event
    GetResponse { key: ContractKey, response: Result<StoreResponse, ExecutorError> },
    /// Updates a supposedly existing contract in this node
    UpdateQuery { key: ContractKey, data: UpdateData, related_contracts: RelatedContracts },
    /// The response to an update query
    UpdateResponse { new_value: Result<WrappedState, ExecutorError> },
    /// The response to an update query where the state has not changed
    UpdateNoChange { key: ContractKey },
    /// A client wants to hear of updates of a contract.
    RegisterSubscriberListener {
        key: ContractKey,
        client_id: ClientId,
        summary: Option<Vec<u8>>,
        subscriber_listener: L,
    },
    /// The client is registered.
    RegisterSubscriberListenerResponse,
    /// Which subscriptions there are.
    QuerySubscriptions { callback: Q },
    /// The subscriptions were handed over.
    QuerySubscriptionsResponse,
}

/// `head` and, in braces, `inner`.
pub open spec fn braced(head: Seq<char>, inner: Seq<char>) -> Seq<char> {
    head + " { "@ + inner + " }"@
}

/// What a request to a delegate is described by.
pub open spec fn delegate_inner(key: Seq<char>, attested: Seq<char>) -> Seq<char> {
    "key: "@ + key + ", attested: "@ + attested
}

/// What a put query is described by: the key and the first eight bytes of the parameters, where
/// the contract is sent along.
pub open spec fn put_inner(key: Seq<char>, params: Option<Seq<u8>>) -> Seq<char> {
    match params {
        Some(bytes) => key + ", params: "@ + "0x"@ + hex(leading(bytes, 8)) + "..."@,
        None => key,
    }
}

/// What a get query is described by.
pub open spec fn get_inner(key: Seq<char>, return_contract_code: bool) -> Seq<char> {
    key + ", return contract code: "@ + if return_contract_code {
        "true"@
    } else {
        "false"@
    }
}

/// What the registration of a listener is described by.
pub open spec fn register_inner(key: Seq<char>, client: nat) -> Seq<char> {
    key + ", client_id: "@ + decimal(client)
}

/// The text of an optional instance identifier when debugging.
pub open spec fn attested_text(attested: Option<ContractInstanceId>) -> Seq<char> {
    match attested {
        Some(id) => "Some("@ + instance_id_debug(id.bytes@) + ")"@,
        None => "None"@,
    }
}

/// The text of a contract key.
pub open spec fn key_text(key: ContractKey) -> Seq<char> {
    contract_key_text(key.instance.bytes@)
}

impl ContractInstanceId {
    /// The text of the identifier when debugging.
    pub fn to_debug(&self) -> (r: String)
        ensures
            r@ == instance_id_debug(self.bytes@),
    {
        debug_instance_id(&self.bytes)
    }
}

impl ContractKey {
    /// The text of the key.
    pub fn to_string(&self) -> (r: String)
        ensures
            r@ == key_text(*self),
    {
        display_contract_key(&self.instance.bytes, &self.code)
    }
}

impl WrappedState {
    /// The text that stands for the state.
    pub fn to_string(&self) -> (r: String)
        ensures
            r@ == state_text(self.bytes@),
    {
        display_state(&self.bytes)
    }
}

/// `head` and, in braces, `inner`.
pub fn in_braces(head: &str, inner: &str) -> (r: String)
    ensures
        r@ == braced(head@, inner@),
{
    let mut out: String = head.to_string();
    out.append(" { ");
    out.append(inner);
    out.append(" }");
    out
}

/// Describes a request to a delegate whose key and attested contract have these texts.
pub fn describe_delegate(key: &str, attested: &str) -> (r: String)
    ensures
        r@ == braced("delegate request"@, delegate_inner(key@, attested@)),
{
    let mut inner: String = "key: ".to_string();
    inner.append(key);
    inner.append(", attested: ");
    inner.append(attested);
    in_braces("delegate request", inner.as_str())
}

/// Describes a put query for the key with this text and these parameters.
pub fn describe_put(key: &str, params: Option<&Vec<u8>>) -> (r: String)
    ensures
        r@ == braced(
            "put query"@,
            put_inner(
                key@,
                match params {
                    Some(bytes) => Some(bytes@),
                    None => None,
                },
            ),
        ),
{
    let mut inner: String = key.to_string();
    if let Some(bytes) = params {
        inner.append(", params: ");
        inner.append("0x");
        let end: usize = if bytes.len() < 8 {
            bytes.len()
        } else {
            8
        };
        append_hex(&mut inner, bytes, end);
        assert(bytes@.take(end as int) =~= leading(bytes@, 8));
        inner.append("...");
    }
    in_braces("put query", inner.as_str())
}

/// Describes a get query for the key with this text.
pub fn describe_get(key: &str, return_contract_code: bool) -> (r: String)
    ensures
        r@ == braced("get query"@, get_inner(key@, return_contract_code)),
{
    let mut inner: String = key.to_string();
    inner.append(", return contract code: ");
    if return_contract_code {
        inner.append("true");
    } else {
        inner.append("false");
    }
    in_braces("get query", inner.as_str())
}

/// Describes the registration of a listener for the key with this text.
pub fn describe_register(key: &str, client_id: ClientId) -> (r: String)
    ensures
        r@ == braced("register subscriber listener"@, register_inner(key@, client_id.0 as nat)),
{
    let mut inner: String = key.to_string();
    inner.append(", client_id: ");
    append_decimal(&mut inner, client_id.0 as u64);
    in_braces("register subscriber listener", inner.as_str())
}

impl<L, Q> ContractHandlerEvent<L, Q> {
    /// The description of the event.
    pub open spec fn text(self) -> Seq<char> {
        match self {
            ContractHandlerEvent::DelegateRequest { req, attested_contract } => braced(
                "delegate request"@,
                delegate_inner(
                    delegate_key_debug(req.key.key@, code_hash_text(req.key.code_hash@)),
                    attested_text(attested_contract),
                ),
            ),
            ContractHandlerEvent::DelegateResponse(_) => "delegate response"@,
            ContractHandlerEvent::PutQuery { key, contract, .. } => braced(
                "put query"@,
                put_inner(
                    key_text(key),
                    match contract {
                        Some(c) => Some(c.params@),
                        None => None,
                    },
                ),
            ),
            ContractHandlerEvent::PutResponse { new_value } => match new_value {
                Ok(v) => braced("put query response"@, state_text(v.bytes@)),
                Err(e) => braced("put query failed"@, e.message@),
            },
            ContractHandlerEvent::GetQuery { key, return_contract_code } => braced(
                "get query"@,
                get_inner(key_text(key), return_contract_code),
            ),
            ContractHandlerEvent::GetResponse { key, response } => match response {
                Ok(_) => braced("get query response"@, key_text(key)),
                Err(_) => braced("get query failed"@, key_text(key)),
            },
            ContractHandlerEvent::UpdateQuery { key, .. } => braced("update query"@, key_text(key)),
            ContractHandlerEvent::UpdateResponse { new_value } => match new_value {
                Ok(v) => braced("update query response"@, state_text(v.bytes@)),
                Err(e) => braced("update query failed"@, e.message@),
            },
            ContractHandlerEvent::UpdateNoChange { key } => braced(
                "update query no change"@,
                key_text(key),
            ),
            ContractHandlerEvent::RegisterSubscriberListener { key, client_id, .. } => braced(
                "register subscriber listener"@,
                register_inner(key_text(key), client_id.0 as nat),
            ),
            ContractHandlerEvent::RegisterSubscriberListenerResponse => {
                "register subscriber listener response"@
            },
            ContractHandlerEvent::QuerySubscriptions { .. } => "query subscriptions"@,
            ContractHandlerEvent::QuerySubscriptionsResponse => "query subscriptions response"@,
        }
    }

    /// The description of the event.
    pub fn to_string(&self) -> (r: String)
        ensures
            r@ == self.text(),
    {
        match self {
            ContractHandlerEvent::DelegateRequest { req, attested_contract } => {
                let key: String = debug_delegate_key(&req.key.key, &req.key.code_hash);
                let attested: String = match attested_contract {
                    Some(id) => {
                        let mut some: String = "Some(".to_string();
                        some.append(id.to_debug().as_str());
                        some.append(")");
                        some
                    },
                    None => "None".to_string(),
                };
                describe_delegate(key.as_str(), attested.as_str())
            },
            ContractHandlerEvent::DelegateResponse(_) => "delegate response".to_string(),
            ContractHandlerEvent::PutQuery { key, contract, .. } => {
                let params: Option<&Vec<u8>> = match contract {
                    Some(c) => Some(&c.params),
                    None => None,
                };
                describe_put(key.to_string().as_str(), params)
            },
            ContractHandlerEvent::PutResponse { new_value } => match new_value {
                Ok(v) => in_braces("put query response", v.to_string().as_str()),
                Err(e) => in_braces("put query failed", e.message.as_str()),
            },
            ContractHandlerEvent::GetQuery { key, return_contract_code } => {
                describe_get(key.to_string().as_str(), *return_contract_code)
            },
            ContractHandlerEvent::GetResponse { key, response } => match response {
                Ok(_) => in_braces("get query response", key.to_string().as_str()),
                Err(_) => in_braces("get query failed", key.to_string().as_str()),
            },
            ContractHandlerEvent::UpdateQuery { key, .. } => {
                in_braces("update query", key.to_string().as_str())
            },
            ContractHandlerEvent::UpdateResponse { new_value } => match new_value {
                Ok(v) => in_braces("update query response", v.to_string().as_str()),
                Err(e) => in_braces("update query failed", e.message.as_str()),
            },
            ContractHandlerEvent::UpdateNoChange { key } => {
                in_braces("update query no change", key.to_string().as_str())
            },
            ContractHandlerEvent::RegisterSubscriberListener { key, client_id, .. } => {
                describe_register(key.to_string().as_str(), *client_id)
            },
            ContractHandlerEvent::RegisterSubscriberListenerResponse => {
                "register subscriber listener response".to_string()
            },
            ContractHandlerEvent::QuerySubscriptions { .. } => "query subscriptions".to_string(),
            ContractHandlerEvent::QuerySubscriptionsResponse => {
                "query subscriptions response".to_string()
            },
        }
    }
}

} // verus!
