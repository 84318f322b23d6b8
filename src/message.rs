use vstd::prelude::*;
use vstd::utf8::encode_utf8_decode_utf8;
use vstd::string::StringSliceAdditionalSpecFns;
use crate::id::RequestId;

verus! {

#[verifier::external_type_specification]
#[verifier::external_body]
pub struct ExJsonValue(serde_json::Value);

#[verifier::external_type_specification]
#[verifier::external_body]
pub struct ExJsonError(serde_json::Error);

#[verifier::external_type_specification]
#[verifier::external_body]
pub struct ExCompletionTriggerKind(lsp_types::CompletionTriggerKind);

/// Relies on `serde_json::Value`'s derived `Clone`, which copies the value
/// (nothing is stated of the copy).
pub assume_specification[ <serde_json::Value as Clone>::clone ](v: &serde_json::Value) -> serde_json::Value;

/// Relies on `CompletionTriggerKind`'s derived `Clone` on a `Copy` type: the
/// same value.
pub assume_specification[ <lsp_types::CompletionTriggerKind as Clone>::clone ](
    k: &lsp_types::CompletionTriggerKind,
) -> (r: lsp_types::CompletionTriggerKind)
    ensures
        r == *k,
;

/// Context sent with a completion request.
#[derive(Debug, Clone)]
pub struct CompletionContext {
    pub line: String,
    pub prefix: String,
    pub start_point: i32,
    pub bounds_start: i32,
    pub trigger_kind: lsp_types::CompletionTriggerKind,
}

/// Context sent with a completion-resolve request.
#[derive(Debug, Clone)]
pub struct ResolveContext {
    pub language_server_id: usize,
    pub start: i32,
    pub end: i32,
}

/// Context naming the root of a workspace.
#[derive(Debug, Clone)]
pub struct WorkspaceContext {
    pub workspace_root: String,
}

/// Context naming only the language server.
#[derive(Debug, Clone)]
pub struct CommonContext {
    pub language_server_id: usize,
}

/// The side-channel context of a request or notification. On the wire it
/// carries no tag: the variant is the first whose fields all decode.
#[derive(Debug, Clone)]
pub enum Context {
    CompletionContext(CompletionContext),
    ResolveContext(ResolveContext),
    CommonContext(CommonContext),
    WorkspaceContext(WorkspaceContext),
}

/// The parameters of a request or notification: the method's own payload
/// (JSON `null` when there is none) and two optional side channels.
#[derive(Debug, Clone)]
pub struct Params {
    pub uri: Option<String>,
    pub context: Option<Context>,
    pub params: serde_json::Value,
}

#[derive(Debug, Clone)]
pub struct Request {
    pub id: RequestId,
    pub method: String,
    pub params: Params,
}

/// The answer to a request. A well-formed one holds exactly one of `result`
/// and `error`.
#[derive(Debug, Clone)]
pub struct Response {
    pub id: RequestId,
    pub result: Option<serde_json::Value>,
    pub error: Option<ResponseError>,
}

#[derive(Debug, Clone)]
pub struct ResponseError {
    pub code: i32,
    pub message: String,
    pub data: Option<serde_json::Value>,
}

/// A message that expects no answer.
#[derive(Debug, Clone)]
pub struct Notification {
    pub method: String,
    pub params: Params,
}

/// One message of the protocol. On the wire it carries no tag: requests are
/// tried first, then responses, then notifications.
#[derive(Debug, Clone)]
pub enum Message {
    Request(Request),
    Response(Response),
    Notification(Notification),
}

/// Why a request or notification could not be taken as a given method.
#[derive(Debug)]
pub enum ExtractError<T> {
    /// The method differs; the message comes back untouched.
    MethodMismatch(T),
    /// The method matches but its payload did not decode.
    JsonError { method: String, error: serde_json::Error },
}

impl From<Request> for Message {
    fn from(value: Request) -> (r: Message) {
        Message::Request(value)
    }
}

impl vstd::std_specs::convert::FromSpecImpl<Request> for Message {
    open spec fn obeys_from_spec() -> bool {
        true
    }

    open spec fn from_spec(v: Request) -> Message {
        Message::Request(v)
    }
}

impl From<Response> for Message {
    fn from(value: Response) -> (r: Message) {
        Message::Response(value)
    }
}

impl vstd::std_specs::convert::FromSpecImpl<Response> for Message {
    open spec fn obeys_from_spec() -> bool {
        true
    }

    open spec fn from_spec(v: Response) -> Message {
        Message::Response(v)
    }
}

impl From<Notification> for Message {
    fn from(value: Notification) -> (r: Message) {
        Message::Notification(value)
    }
}

impl vstd::std_specs::convert::FromSpecImpl<Notification> for Message {
    open spec fn obeys_from_spec() -> bool {
        true
    }

    open spec fn from_spec(v: Notification) -> Message {
        Message::Notification(v)
    }
}

/// Whether two strings hold the same characters.
pub fn str_eq(a: &str, b: &str) -> (r: bool)
    ensures
        r == (a@ == b@),
{
    let x = a.as_bytes();
    let y = b.as_bytes();
    proof {
        encode_utf8_decode_utf8(a@);
        encode_utf8_decode_utf8(b@);
    }
    if x.len() != y.len() {
        return false;
    }
    let mut i: usize = 0;
    while i < x.len()
        invariant
            x@ == a.spec_bytes(),
            y@ == b.spec_bytes(),
            x@.len() == y@.len(),
            i <= x@.len(),
            forall|j: int| 0 <= j < i ==> x@[j] == y@[j],
        decreases x.len() - i,
    {
        if x[i] != y[i] {
            return false;
        }
        i = i + 1;
    }
    assert(x@ =~= y@);
    true
}


/// Relies on `serde_json::from_value`: decodes the payload into `P`, or
/// reports why it could not (what comes out depends on `P`'s `Deserialize`).
#[verifier::external_body]
fn decode_payload<P: serde::de::DeserializeOwned>(v: serde_json::Value) -> (r: Result<
    P,
    serde_json::Error,
>) {
    serde_json::from_value(v)
}

impl Response {
    /// A successful response carrying `result`, and no error.
    pub fn new_ok(id: RequestId, result: serde_json::Value) -> (r: Response)
        ensures
            r.id == id,
            r.result == Some(result),
            r.error is None,
            r.well_formed(),
    {
        Response { id, result: Some(result), error: None }
    }

    /// A failed response carrying `code` and `message`, no extra data and no
    /// result.
    pub fn new_err(id: RequestId, code: i32, message: String) -> (r: Response)
        ensures
            r.id == id,
            r.result is None,
            r.error matches Some(e) && e.code == code && e.message == message && e.data is None,
            r.well_formed(),
    {
        let error = ResponseError { code, message, data: None };
        Response { id, result: None, error: Some(error) }
    }

    /// Exactly one of `result` and `error` is there.
    pub open spec fn well_formed(&self) -> bool {
        self.result.is_some() != self.error.is_some()
    }
}

/// `Some` with a copy of the string, or `None`.
fn copy_uri(uri: &Option<String>) -> (r: Option<String>)
    ensures
        r == *uri,
{
    match uri {
        Some(u) => Some(u.clone()),
        None => None,
    }
}

/// Parameters holding `payload` and neither side channel.
fn bare_params(payload: serde_json::Value) -> (r: Params)
    ensures
        r.uri is None,
        r.context is None,
        r.params == payload,
{
    Params { uri: None, context: None, params: payload }
}

/// The outcome of an extraction once the payload has been decoded: the
/// decoded value, or the decoding error under the method's name.
pub fn finish_extract<T, P>(method: String, decoded: Result<P, serde_json::Error>) -> (r: Result<
    P,
    ExtractError<T>,
>)
    ensures
        match decoded {
            Ok(p) => r == Ok::<P, ExtractError<T>>(p),
            Err(e) => r matches Err(ExtractError::JsonError { method: m, error }) && m == method
                && error == e,
        },
{
    match decoded {
        Ok(p) => Ok(p),
        Err(error) => Err(ExtractError::JsonError { method, error }),
    }
}

impl Request {
    /// A request for `method` with `params` as its payload and no side
    /// channels.
    pub fn new(id: RequestId, method: String, params: serde_json::Value) -> (r: Request)
        ensures
            r.id == id,
            r.method == method,
            r.params.params == params,
            r.params.uri is None,
            r.params.context is None,
    {
        Request { id, method, params: bare_params(params) }
    }

    pub fn uri(&self) -> (r: Option<String>)
        ensures
            r == self.params.uri,
    {
        copy_uri(&self.params.uri)
    }

    /// The identifier and the decoded payload where the method is `method`.
    /// Where it is not, the request comes back untouched.
    pub fn extract<P: serde::de::DeserializeOwned>(self, method: &str) -> (r: Result<
        (RequestId, P),
        ExtractError<Request>,
    >)
        ensures
            self.method@ != method@ ==> r == Err::<(RequestId, P), ExtractError<Request>>(
                ExtractError::MethodMismatch(self),
            ),
            self.method@ == method@ ==> match r {
                Ok((id, _)) => id == self.id,
                Err(ExtractError::JsonError { method: m, .. }) => m == self.method,
                Err(ExtractError::MethodMismatch(_)) => false,
            },
    {
        if !str_eq(self.method.as_str(), method) {
            return Err(ExtractError::MethodMismatch(self));
        }
        let Request { id, method, params } = self;
        match finish_extract(method, decode_payload(params.params)) {
            Ok(p) => Ok((id, p)),
            Err(e) => Err(e),
        }
    }

    pub fn is_shutdown(&self) -> (r: bool)
        ensures
            r == (self.method@ == "shutdown"@),
    {
        str_eq(self.method.as_str(), "shutdown")
    }

    pub fn is_initialize(&self) -> (r: bool)
        ensures
            r == (self.method@ == "initialize"@),
    {
        str_eq(self.method.as_str(), "initialize")
    }
}

impl Notification {
    /// A notification of `method` with `params` as its payload and no side
    /// channels.
    pub fn new(method: String, params: serde_json::Value) -> (r: Notification)
        ensures
            r.method == method,
            r.params.params == params,
            r.params.uri is None,
            r.params.context is None,
    {
        Notification { method, params: bare_params(params) }
    }

    pub fn uri(&self) -> (r: Option<String>)
        ensures
            r == self.params.uri,
    {
        copy_uri(&self.params.uri)
    }

    /// The decoded payload where the method is `method`. Where it is not,
    /// the notification comes back untouched.
    pub fn extract<P: serde::de::DeserializeOwned>(self, method: &str) -> (r: Result<
        P,
        ExtractError<Notification>,
    >)
        ensures
            self.method@ != method@ ==> r == Err::<P, ExtractError<Notification>>(
                ExtractError::MethodMismatch(self),
            ),
            self.method@ == method@ ==> match r {
                Ok(_) => true,
                Err(ExtractError::JsonError { method: m, .. }) => m == self.method,
                Err(ExtractError::MethodMismatch(_)) => false,
            },
    {
        if !str_eq(self.method.as_str(), method) {
            return Err(ExtractError::MethodMismatch(self));
        }
        let Notification { method, params } = self;
        finish_extract(method, decode_payload(params.params))
    }

    pub fn is_exit(&self) -> (r: bool)
        ensures
            r == (self.method@ == "exit"@),
    {
        str_eq(self.method.as_str(), "exit")
    }

    pub fn is_initialize(&self) -> (r: bool)
        ensures
            r == (self.method@ == "initialize"@),
    {
        str_eq(self.method.as_str(), "initialize")
    }
}


/// A response that a payload may stand for: one with a result or an error.
pub open spec fn answers(p: Response) -> bool {
    p.result is Some || p.error is Some
}

impl Message {
    /// The message that a payload stands for, given what decoding it as each
    /// kind gave: a request where it decodes as one; else a response that
    /// holds a result or an error; else, where the payload has no `id`, a
    /// notification; else none.
    pub fn select(
        request: Option<Request>,
        response: Option<Response>,
        notification: Option<Notification>,
        has_id: bool,
    ) -> (r: Option<Message>)
        ensures
            request matches Some(q) ==> r == Some(Message::Request(q)),
            request is None && response is Some && answers(response->Some_0) ==> r == Some(
                Message::Response(response->Some_0),
            ),
            request is None && !(response is Some && answers(response->Some_0))
                && notification is Some && !has_id ==> r == Some(
                Message::Notification(notification->Some_0),
            ),
            r is None <==> request is None && !(response is Some && answers(response->Some_0)) && (
            notification is None || has_id),
    {
        if let Some(q) = request {
            return Some(Message::Request(q));
        }
        if let Some(p) = response {
            if p.result.is_some() || p.error.is_some() {
                return Some(Message::Response(p));
            }
        }
        match notification {
            Some(n) => if has_id {
                None
            } else {
                Some(Message::Notification(n))
            },
            None => None,
        }
    }
}

impl Context {
    /// The context that an object stands for, given what decoding it as each
    /// kind gave: the most specific kind that decoded wins, in the order
    /// completion, resolve, common, workspace.
    pub fn select(
        completion: Option<CompletionContext>,
        resolve: Option<ResolveContext>,
        common: Option<CommonContext>,
        workspace: Option<WorkspaceContext>,
    ) -> (r: Option<Context>)
        ensures
            completion is Some ==> r == Some(Context::CompletionContext(completion->Some_0)),
            completion is None && resolve is Some ==> r == Some(
                Context::ResolveContext(resolve->Some_0),
            ),
            completion is None && resolve is None && common is Some ==> r == Some(
                Context::CommonContext(common->Some_0),
            ),
            completion is None && resolve is None && common is None && workspace is Some ==> r
                == Some(Context::WorkspaceContext(workspace->Some_0)),
            r is None <==> completion is None && resolve is None && common is None && workspace is None,
    {
        match (completion, resolve, common, workspace) {
            (Some(c), _, _, _) => Some(Context::CompletionContext(c)),
            (None, Some(c), _, _) => Some(Context::ResolveContext(c)),
            (None, None, Some(c), _) => Some(Context::CommonContext(c)),
            (None, None, None, Some(c)) => Some(Context::WorkspaceContext(c)),
            (None, None, None, None) => None,
        }
    }
}

/// The error codes that a response may carry.
#[derive(Clone, Copy, Debug, PartialEq, Eq, Structural)]
#[non_exhaustive]
pub enum ErrorCode {
    ParseError,
    InvalidRequest,
    MethodNotFound,
    InvalidParams,
    InternalError,
    ServerErrorStart,
    ServerErrorEnd,
    /// A request or notification came before the `initialize` request.
    ServerNotInitialized,
    UnknownErrorCode,
    /// The client cancelled a request and the server noticed.
    RequestCanceled,
    /// The document changed in a way that made the answer stale.
    ContentModified,
    /// The server cancelled the request.
    ServerCancelled,
    /// The request was well formed but could not be carried out.
    RequestFailed,
}

impl ErrorCode {
    pub open spec fn spec_code(self) -> int {
        match self {
            ErrorCode::ParseError => -32700,
            ErrorCode::InvalidRequest => -32600,
            ErrorCode::MethodNotFound => -32601,
            ErrorCode::InvalidParams => -32602,
            ErrorCode::InternalError => -32603,
            ErrorCode::ServerErrorStart => -32099,
            ErrorCode::ServerErrorEnd => -32000,
            ErrorCode::ServerNotInitialized => -32002,
            ErrorCode::UnknownErrorCode => -32001,
            ErrorCode::RequestCanceled => -32800,
            ErrorCode::ContentModified => -32801,
            ErrorCode::ServerCancelled => -32802,
            ErrorCode::RequestFailed => -32803,
        }
    }

    /// The number that stands for this code in `ResponseError::code`.
    pub fn code(self) -> (r: i32)
        ensures
            r as int == self.spec_code(),
    {
        match self {
            ErrorCode::ParseError => -32700,
            ErrorCode::InvalidRequest => -32600,
            ErrorCode::MethodNotFound => -32601,
            ErrorCode::InvalidParams => -32602,
            ErrorCode::InternalError => -32603,
            ErrorCode::ServerErrorStart => -32099,
            ErrorCode::ServerErrorEnd => -32000,
            ErrorCode::ServerNotInitialized => -32002,
            ErrorCode::UnknownErrorCode => -32001,
            ErrorCode::RequestCanceled => -32800,
            ErrorCode::ContentModified => -32801,
            ErrorCode::ServerCancelled => -32802,
            ErrorCode::RequestFailed => -32803,
        }
    }
}

} // verus!
