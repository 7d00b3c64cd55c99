//! The envelopes of JSON-RPC 2.0 as the protocol uses them.

use vstd::prelude::*;

use crate::json::JsonText;

verus! {

pub const JSONRPC_VERSION: &'static str = "2.0";

/// The id of a request. It is never empty.
#[derive(Debug, PartialEq, Eq, PartialOrd, Ord, Hash)]
pub struct RpcId {
    text: String,
}

impl View for RpcId {
    type V = Seq<char>;

    closed spec fn view(&self) -> Seq<char> {
        self.text@
    }
}

impl Clone for RpcId {
    fn clone(&self) -> (r: Self)
        ensures
            r == *self,
    {
        proof {
            use_type_invariant(self);
        }
        RpcId { text: self.text.clone() }
    }
}

/// The refusal of an empty id.
#[derive(Clone, Copy, Debug, PartialEq, Eq, Structural)]
pub struct RpcIdError;

impl RpcIdError {
    pub fn message(&self) -> (r: String)
        ensures
            r@ == "JSON-RPC id must be a non-empty string in Provider Protocol v1"@,
    {
        "JSON-RPC id must be a non-empty string in Provider Protocol v1".to_owned()
    }
}

impl RpcId {
    #[verifier::type_invariant]
    spec fn non_empty(self) -> bool {
        self.text@.len() > 0
    }

    /// Takes a text as an id, unless it is empty.
    pub fn new(value: &str) -> (r: Result<RpcId, RpcIdError>)
        ensures
            match r {
                Ok(id) => value@.len() > 0 && id@ == value@,
                Err(_) => value@.len() == 0,
            },
    {
        if value.is_empty() {
            Err(RpcIdError)
        } else {
            Ok(RpcId { text: value.to_owned() })
        }
    }

    pub fn as_str(&self) -> (r: &str)
        ensures
            r@ == self@,
            r@.len() > 0,
    {
        proof {
            use_type_invariant(self);
        }
        self.text.as_str()
    }

    /// Whether two ids have the same text.
    pub fn same(&self, other: &RpcId) -> (r: bool)
        ensures
            r == (self@ == other@),
    {
        self.text == other.text
    }
}

/// A call that expects a response.
#[derive(Debug, PartialEq)]
pub struct RpcRequest<P> {
    pub jsonrpc: String,
    pub id: RpcId,
    pub method: String,
    pub params: P,
}

impl<P> RpcRequest<P> {
    pub fn new(id: RpcId, method: &str, params: P) -> (r: Self)
        ensures
            r.jsonrpc@ == JSONRPC_VERSION@,
            r.id == id,
            r.method@ == method@,
            r.params == params,
    {
        RpcRequest { jsonrpc: JSONRPC_VERSION.to_owned(), id, method: method.to_owned(), params }
    }
}

/// A call that expects none.
#[derive(Debug, PartialEq)]
pub struct RpcNotification<P> {
    pub jsonrpc: String,
    pub method: String,
    pub params: P,
}

impl<P> RpcNotification<P> {
    pub fn new(method: &str, params: P) -> (r: Self)
        ensures
            r.jsonrpc@ == JSONRPC_VERSION@,
            r.method@ == method@,
            r.params == params,
    {
        RpcNotification { jsonrpc: JSONRPC_VERSION.to_owned(), method: method.to_owned(), params }
    }
}

#[derive(Debug, PartialEq)]
pub struct RpcSuccessResponse<R> {
    pub jsonrpc: String,
    pub id: RpcId,
    pub result: R,
}

impl<R> RpcSuccessResponse<R> {
    pub fn new(id: RpcId, result: R) -> (r: Self)
        ensures
            r.jsonrpc@ == JSONRPC_VERSION@,
            r.id == id,
            r.result == result,
    {
        RpcSuccessResponse { jsonrpc: JSONRPC_VERSION.to_owned(), id, result }
    }
}

#[derive(Debug, PartialEq)]
pub struct RpcErrorResponse {
    pub jsonrpc: String,
    pub id: RpcId,
    pub error: RpcErrorObject,
}

impl RpcErrorResponse {
    pub fn new(id: RpcId, error: RpcErrorObject) -> (r: Self)
        ensures
            r.jsonrpc@ == JSONRPC_VERSION@,
            r.id == id,
            r.error == error,
    {
        RpcErrorResponse { jsonrpc: JSONRPC_VERSION.to_owned(), id, error }
    }
}

#[derive(Debug, PartialEq)]
pub struct RpcErrorObject {
    pub code: i64,
    pub message: String,
    pub data: Option<JsonText>,
}

#[verifier::ext_equal]
pub struct RpcErrorView {
    pub code: i64,
    pub message: Seq<char>,
    pub data: Option<Seq<char>>,
}

/// The view of an optional JSON text.
pub open spec fn opt_json(o: Option<JsonText>) -> Option<Seq<char>> {
    match o {
        Some(json) => Some(json@),
        None => None,
    }
}

impl View for RpcErrorObject {
    type V = RpcErrorView;

    open spec fn view(&self) -> RpcErrorView {
        RpcErrorView { code: self.code, message: self.message@, data: opt_json(self.data) }
    }
}

impl Clone for RpcErrorObject {
    fn clone(&self) -> (r: Self)
        ensures
            r == *self,
    {
        RpcErrorObject {
            code: self.code,
            message: self.message.clone(),
            data: self.data.clone(),
        }
    }
}

impl RpcErrorObject {
    pub const PARSE_ERROR: i64 = -32700;

    pub const INVALID_REQUEST: i64 = -32600;

    pub const METHOD_NOT_FOUND: i64 = -32601;

    pub const INVALID_PARAMS: i64 = -32602;

    pub const INTERNAL_ERROR: i64 = -32603;

    pub fn new(code: i64, message: &str) -> (r: Self)
        ensures
            r@ == (RpcErrorView { code, message: message@, data: None }),
    {
        RpcErrorObject { code, message: message.to_owned(), data: None }
    }

    pub fn with_data(self, data: JsonText) -> (r: Self)
        ensures
            r@ == (RpcErrorView { data: Some(data@), ..self@ }),
    {
        RpcErrorObject { code: self.code, message: self.message, data: Some(data) }
    }
}

/// A message from a provider.
#[derive(Debug, PartialEq)]
pub enum InboundMessage {
    Response(RpcResponseEnvelope),
    Notification(RpcNotificationEnvelope),
    Request(RpcRequestEnvelope),
}

#[derive(Debug, PartialEq)]
pub struct RpcResponseEnvelope {
    pub id: RpcId,
    pub outcome: RpcResponseOutcome,
}

#[derive(Debug, PartialEq)]
pub enum RpcResponseOutcome {
    Success(JsonText),
    Error(RpcErrorObject),
}

#[derive(Debug, PartialEq)]
pub struct RpcNotificationEnvelope {
    pub method: String,
    pub params: JsonText,
}

#[derive(Debug, PartialEq)]
pub struct RpcRequestEnvelope {
    pub id: RpcId,
    pub method: String,
    pub params: JsonText,
}

#[verifier::ext_equal]
pub enum OutcomeView {
    Success(Seq<char>),
    Error(RpcErrorView),
}

impl View for RpcResponseOutcome {
    type V = OutcomeView;

    open spec fn view(&self) -> OutcomeView {
        match self {
            RpcResponseOutcome::Success(value) => OutcomeView::Success(value@),
            RpcResponseOutcome::Error(error) => OutcomeView::Error(error@),
        }
    }
}

/// The model of a message from a provider.
#[verifier::ext_equal]
pub enum InboundView {
    Response { id: Seq<char>, outcome: OutcomeView },
    Notification { method: Seq<char>, params: Seq<char> },
    Request { id: Seq<char>, method: Seq<char>, params: Seq<char> },
}

impl View for InboundMessage {
    type V = InboundView;

    open spec fn view(&self) -> InboundView {
        match self {
            InboundMessage::Response(response) => InboundView::Response {
                id: response.id@,
                outcome: response.outcome@,
            },
            InboundMessage::Notification(notification) => InboundView::Notification {
                method: notification.method@,
                params: notification.params@,
            },
            InboundMessage::Request(request) => InboundView::Request {
                id: request.id@,
                method: request.method@,
                params: request.params@,
            },
        }
    }
}

} // verus!
