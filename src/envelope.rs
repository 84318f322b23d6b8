use vstd::prelude::*;
use crate::id::{IdValue, RequestId};
use crate::message::{Context, Message, Params, Response, ResponseError};

verus! {

#[verifier::external_type_specification]
#[verifier::external_body]
#[verifier::reject_recursive_types(K)]
#[verifier::reject_recursive_types(V)]
pub struct ExJsonMap<K, V>(serde_json::Map<K, V>);

/// What a JSON object holds: each key, read as characters, with its value.
pub uninterp spec fn object_entries(m: serde_json::Map<String, serde_json::Value>) -> Map<
    Seq<char>,
    serde_json::Value,
>;

/// The JSON value `Value::Object` makes of an object.
pub uninterp spec fn json_object(m: serde_json::Map<String, serde_json::Value>) -> serde_json::Value;

/// The JSON number that `Value::from::<i32>` makes.
pub uninterp spec fn json_int(n: int) -> serde_json::Value;

/// The JSON number that `Value::from::<usize>` makes.
pub uninterp spec fn json_uint(n: int) -> serde_json::Value;

/// The JSON string that `Value::String` makes.
pub uninterp spec fn json_string(s: Seq<char>) -> serde_json::Value;

/// Whether a JSON value is `null`.
pub uninterp spec fn json_is_null(v: serde_json::Value) -> bool;

/// Relies on `serde_json::Map::new`: an object with no entries.
#[verifier::external_body]
fn new_object() -> (r: serde_json::Map<String, serde_json::Value>)
    ensures
        object_entries(r).dom() == Set::<Seq<char>>::empty(),
{
    serde_json::Map::new()
}

/// Relies on `serde_json::Map::insert`: the key now holds `v`; the other
/// entries stay.
#[verifier::external_body]
fn put(m: &mut serde_json::Map<String, serde_json::Value>, k: &str, v: serde_json::Value)
    ensures
        object_entries(*final(m)) == object_entries(*old(m)).insert(k@, v),
{
    m.insert(k.to_owned(), v);
}

/// Relies on `serde_json::Value::Object`: the object as a JSON value.
#[verifier::external_body]
fn object_value(m: serde_json::Map<String, serde_json::Value>) -> (r: serde_json::Value)
    ensures
        r == json_object(m),
{
    serde_json::Value::Object(m)
}

/// Relies on `serde_json::Value::from::<i32>`: the number as a JSON value.
#[verifier::external_body]
fn int_value(n: i32) -> (r: serde_json::Value)
    ensures
        r == json_int(n as int),
{
    serde_json::Value::from(n)
}

/// Relies on `serde_json::Value::from::<usize>`: the number as a JSON value.
#[verifier::external_body]
fn usize_value(n: usize) -> (r: serde_json::Value)
    ensures
        r == json_uint(n as int),
{
    serde_json::Value::from(n)
}

/// Relies on `serde_json::Value::String`: the text as a JSON string.
#[verifier::external_body]
fn string_value(s: String) -> (r: serde_json::Value)
    ensures
        r == json_string(s@),
{
    serde_json::Value::String(s)
}

/// Relies on `serde_json::Value::Null`, which `Value::is_null` accepts.
#[verifier::external_body]
fn null_value() -> (r: serde_json::Value)
    ensures
        json_is_null(r),
{
    serde_json::Value::Null
}

/// Relies on `serde_json::to_value` on lsp-types' trigger kind, which is
/// written as its bare number.
#[verifier::external_body]
fn trigger_kind_value(k: lsp_types::CompletionTriggerKind) -> serde_json::Value {
    serde_json::to_value(k).unwrap_or(serde_json::Value::Null)
}

/// Relies on `serde_json::Value::is_null`.
#[verifier::external_body]
fn is_null(v: &serde_json::Value) -> (r: bool)
    ensures
        r == json_is_null(*v),
{
    v.is_null()
}

/// The JSON text of a value.
pub uninterp spec fn json_text(v: serde_json::Value) -> Seq<char>;

/// Relies on `serde_json::Value`'s `Display`, which writes the compact
/// JSON text (as `serde_json::to_string` does).
#[verifier::external_body]
fn value_text(v: &serde_json::Value) -> (r: String)
    ensures
        r@ == json_text(*v),
{
    v.to_string()
}

/// The compact JSON text of `v`.
pub fn to_json_text(v: &serde_json::Value) -> (r: String)
    ensures
        r@ == json_text(*v),
{
    value_text(v)
}

/// Relies on `serde_json::Value::get` with a string key: on an object, it
/// finds exactly the keys that the object holds.
#[verifier::external_body]
fn value_get_is_some(v: &serde_json::Value, k: &str) -> (r: bool)
    ensures
        forall|m: serde_json::Map<String, serde_json::Value>|
            *v == #[trigger] json_object(m) ==> r == object_entries(m).dom().contains(k@),
{
    v.get(k).is_some()
}

/// Whether `v` is an object holding the key `k`.
pub fn has_field(v: &serde_json::Value, k: &str) -> (r: bool)
    ensures
        forall|m: serde_json::Map<String, serde_json::Value>|
            *v == #[trigger] json_object(m) ==> r == object_entries(m).dom().contains(k@),
{
    value_get_is_some(v, k)
}

/// An identifier on the wire: a bare number or a bare string.
pub open spec fn id_json(id: RequestId) -> serde_json::Value {
    match id@ {
        IdValue::Int(n) => json_int(n),
        IdValue::Text(t) => json_string(t),
    }
}

/// An identifier on the wire: a bare number or a bare string.
pub fn id_value(id: RequestId) -> (r: serde_json::Value)
    ensures
        r == id_json(id),
{
    match id.as_i32() {
        Some(n) => int_value(n),
        None => match id.as_text() {
            Some(s) => string_value(s),
            None => null_value(),
        },
    }
}

/// `v` is what an optional string becomes: the string, or `null`.
pub open spec fn opt_string_json(s: Option<String>, v: serde_json::Value) -> bool {
    match s {
        Some(u) => v == json_string(u@),
        None => json_is_null(v),
    }
}

fn option_string_value(s: Option<String>) -> (r: serde_json::Value)
    ensures
        opt_string_json(s, r),
{
    match s {
        Some(s) => string_value(s),
        None => null_value(),
    }
}

/// The keys that a context object holds on the wire.
pub open spec fn context_keys(c: Context) -> Set<Seq<char>> {
    match c {
        Context::CompletionContext(_) => set![
            "line"@,
            "prefix"@,
            "startPoint"@,
            "boundsStart"@,
            "triggerKind"@,
        ],
        Context::ResolveContext(_) => set!["language-server-id"@, "start"@, "end"@],
        Context::CommonContext(_) => set!["language-server-id"@],
        Context::WorkspaceContext(_) => set!["workspace-root"@],
    }
}

/// `e` is what a context object holds: the context's keys, each with its
/// field (the trigger kind as lsp-types writes it).
pub open spec fn context_entries(c: Context, e: Map<Seq<char>, serde_json::Value>) -> bool {
    e.dom() == context_keys(c) && match c {
        Context::CompletionContext(c) => e["line"@] == json_string(c.line@) && e["prefix"@]
            == json_string(c.prefix@) && e["startPoint"@] == json_int(c.start_point as int)
            && e["boundsStart"@] == json_int(c.bounds_start as int),
        Context::ResolveContext(c) => e["language-server-id"@] == json_uint(
            c.language_server_id as int,
        ) && e["start"@] == json_int(c.start as int) && e["end"@] == json_int(c.end as int),
        Context::CommonContext(c) => e["language-server-id"@] == json_uint(
            c.language_server_id as int,
        ),
        Context::WorkspaceContext(c) => e["workspace-root"@] == json_string(c.workspace_root@),
    }
}

/// A context as the JSON object that carries it.
pub fn context_object(c: Context) -> (r: serde_json::Map<String, serde_json::Value>)
    ensures
        context_entries(c, object_entries(r)),
{
    let ghost c0 = c;
    proof {
        reveal_strlit("line");
        reveal_strlit("prefix");
        reveal_strlit("startPoint");
        reveal_strlit("boundsStart");
        reveal_strlit("triggerKind");
        reveal_strlit("start");
        reveal_strlit("end");
        assert("line"@.len() == 4 && "prefix"@.len() == 6 && "startPoint"@.len() == 10);
        assert("boundsStart"@.len() == 11 && "triggerKind"@.len() == 11);
        assert("boundsStart"@[0] != "triggerKind"@[0]);
        assert("start"@.len() == 5 && "end"@.len() == 3);
        reveal_strlit("language-server-id");
        assert("language-server-id"@.len() == 18);
    }
    let mut m = new_object();
    match c {
        Context::CompletionContext(c) => {
            put(&mut m, "line", string_value(c.line));
            put(&mut m, "prefix", string_value(c.prefix));
            put(&mut m, "startPoint", int_value(c.start_point));
            put(&mut m, "boundsStart", int_value(c.bounds_start));
            put(&mut m, "triggerKind", trigger_kind_value(c.trigger_kind));
        },
        Context::ResolveContext(c) => {
            put(&mut m, "language-server-id", usize_value(c.language_server_id));
            put(&mut m, "start", int_value(c.start));
            put(&mut m, "end", int_value(c.end));
        },
        Context::CommonContext(c) => {
            put(&mut m, "language-server-id", usize_value(c.language_server_id));
        },
        Context::WorkspaceContext(c) => {
            put(&mut m, "workspace-root", string_value(c.workspace_root));
        },
    }
    assert(object_entries(m).dom() =~= context_keys(c0));
    m
}

/// `v` is what an optional context becomes: its object, or `null`.
pub open spec fn context_json(c: Option<Context>, v: serde_json::Value) -> bool {
    match c {
        Some(c) => exists|m: serde_json::Map<String, serde_json::Value>|
            v == #[trigger] json_object(m) && context_entries(c, object_entries(m)),
        None => json_is_null(v),
    }
}

/// `e` is what a parameters object holds: `uri` and `context` always, and
/// the payload under `params` exactly where it is not `null`.
pub open spec fn params_entries(p: Params, e: Map<Seq<char>, serde_json::Value>) -> bool {
    &&& e.dom() == (if json_is_null(p.params) {
        set!["uri"@, "context"@]
    } else {
        set!["uri"@, "context"@, "params"@]
    })
    &&& opt_string_json(p.uri, e["uri"@])
    &&& context_json(p.context, e["context"@])
    &&& !json_is_null(p.params) ==> e["params"@] == p.params
}

/// Parameters as the JSON object that carries them.
pub fn params_object(p: Params) -> (r: serde_json::Map<String, serde_json::Value>)
    ensures
        params_entries(p, object_entries(r)),
{
    let ghost p0 = p;
    proof {
        reveal_strlit("uri");
        reveal_strlit("context");
        reveal_strlit("params");
        assert("uri"@.len() == 3 && "context"@.len() == 7 && "params"@.len() == 6);
    }
    let omit = is_null(&p.params);
    let mut m = new_object();
    put(&mut m, "uri", option_string_value(p.uri));
    let context = match p.context {
        Some(c) => {
            let cm = context_object(c);
            let v = object_value(cm);
            assert(v == json_object(cm) && context_entries(c, object_entries(cm)));
            v
        },
        None => null_value(),
    };
    put(&mut m, "context", context);
    if !omit {
        put(&mut m, "params", p.params);
    }
    proof {
        assert(object_entries(m).dom() =~= (if json_is_null(p0.params) {
            set!["uri"@, "context"@]
        } else {
            set!["uri"@, "context"@, "params"@]
        }));
    }
    m
}

/// `e` is what an error object holds: `code`, `message`, and `data` where
/// there is any.
pub open spec fn error_entries(err: ResponseError, e: Map<Seq<char>, serde_json::Value>) -> bool {
    &&& e.dom() == (if err.data is Some {
        set!["code"@, "message"@, "data"@]
    } else {
        set!["code"@, "message"@]
    })
    &&& e["code"@] == json_int(err.code as int)
    &&& e["message"@] == json_string(err.message@)
    &&& err.data is Some ==> e["data"@] == err.data->Some_0
}

/// An error as the JSON object that carries it.
pub fn error_object(e: ResponseError) -> (r: serde_json::Map<String, serde_json::Value>)
    ensures
        error_entries(e, object_entries(r)),
{
    let ghost e0 = e;
    let mut m = new_object();
    put(&mut m, "code", int_value(e.code));
    put(&mut m, "message", string_value(e.message));
    if let Some(d) = e.data {
        put(&mut m, "data", d);
    }
    proof {
        reveal_strlit("code");
        reveal_strlit("message");
        reveal_strlit("data");
        assert("code"@[0] != "data"@[0]);
        assert(object_entries(m).dom() =~= (if e0.data is Some {
            set!["code"@, "message"@, "data"@]
        } else {
            set!["code"@, "message"@]
        }));
    }
    m
}

/// The top-level keys that a message's envelope holds: `jsonrpc` with the
/// fields of its kind, a response's `result` and `error` only where present.
pub open spec fn envelope_keys(m: Message) -> Set<Seq<char>> {
    match m {
        Message::Request(_) => set!["jsonrpc"@, "id"@, "method"@, "params"@],
        Message::Response(r) => {
            let base = set!["jsonrpc"@, "id"@];
            let with_result = if r.result is Some {
                base.insert("result"@)
            } else {
                base
            };
            if r.error is Some {
                with_result.insert("error"@)
            } else {
                with_result
            }
        },
        Message::Notification(_) => set!["jsonrpc"@, "method"@, "params"@],
    }
}

/// `v` is the object that carries parameters `p`.
pub open spec fn params_json(p: Params, v: serde_json::Value) -> bool {
    exists|m: serde_json::Map<String, serde_json::Value>|
        v == #[trigger] json_object(m) && params_entries(p, object_entries(m))
}

/// `e` is what a message's envelope holds: `"jsonrpc": "2.0"` and the
/// message's own fields, each with its value.
pub open spec fn envelope_entries(msg: Message, e: Map<Seq<char>, serde_json::Value>) -> bool {
    &&& e.dom() == envelope_keys(msg)
    &&& e["jsonrpc"@] == json_string("2.0"@)
    &&& match msg {
        Message::Request(q) => e["id"@] == id_json(q.id) && e["method"@] == json_string(q.method@)
            && params_json(q.params, e["params"@]),
        Message::Response(r) => e["id"@] == id_json(r.id) && (r.result is Some ==> e["result"@]
            == r.result->Some_0) && (r.error is Some ==> exists|
            m: serde_json::Map<String, serde_json::Value>,
        |
            e["error"@] == #[trigger] json_object(m) && error_entries(
                r.error->Some_0,
                object_entries(m),
            )),
        Message::Notification(n) => e["method"@] == json_string(n.method@) && params_json(
            n.params,
            e["params"@],
        ),
    }
}

impl Message {
    /// The JSON-RPC 2.0 envelope of the message: `"jsonrpc": "2.0"` beside
    /// the message's own fields, absent ones left out.
    pub fn to_envelope(self) -> (r: serde_json::Map<String, serde_json::Value>)
        ensures
            envelope_entries(self, object_entries(r)),
    {
        let ghost msg = self;
        let mut m = new_object();
        put(&mut m, "jsonrpc", string_value("2.0".to_owned()));
        proof {
            reveal_strlit("jsonrpc");
            reveal_strlit("id");
            reveal_strlit("method");
            reveal_strlit("params");
            reveal_strlit("result");
            reveal_strlit("error");
            assert("method"@[0] != "params"@[0]);
            assert("jsonrpc"@.len() == 7 && "id"@.len() == 2 && "method"@.len() == 6);
            assert("result"@.len() == 6 && "error"@.len() == 5 && "params"@.len() == 6);
            assert("result"@[0] != "params"@[0] && "result"@[0] != "method"@[0]);
        }
        match self {
            Message::Request(q) => {
                put(&mut m, "id", id_value(q.id));
                put(&mut m, "method", string_value(q.method));
                let pm = params_object(q.params);
                let pv = object_value(pm);
                assert(pv == json_object(pm) && params_entries(q.params, object_entries(pm)));
                put(&mut m, "params", pv);
            },
            Message::Response(p) => {
                put(&mut m, "id", id_value(p.id));
                if let Some(v) = p.result {
                    put(&mut m, "result", v);
                }
                if let Some(e) = p.error {
                    let em = error_object(e);
                    let ev = object_value(em);
                    assert(ev == json_object(em) && error_entries(e, object_entries(em)));
                    put(&mut m, "error", ev);
                }
            },
            Message::Notification(n) => {
                put(&mut m, "method", string_value(n.method));
                let pm = params_object(n.params);
                let pv = object_value(pm);
                assert(pv == json_object(pm) && params_entries(n.params, object_entries(pm)));
                put(&mut m, "params", pv);
            },
        }
        assert(object_entries(m).dom() =~= envelope_keys(msg));
        m
    }
}

/// A response's envelope carries a `result` key exactly where the response
/// holds a result, and an `error` key exactly where it holds an error. So
/// one made by `Response::new_err` never carries `result`, and one made by
/// `Response::new_ok` never carries `error`.
pub proof fn lemma_response_envelope_fields(r: Response)
    ensures
        envelope_keys(Message::Response(r)).contains("result"@) <==> r.result is Some,
        envelope_keys(Message::Response(r)).contains("error"@) <==> r.error is Some,
{
    reveal_strlit("result");
    reveal_strlit("error");
    reveal_strlit("jsonrpc");
    reveal_strlit("id");
    assert("result"@.len() == 6 && "error"@.len() == 5);
    assert("jsonrpc"@.len() == 7 && "id"@.len() == 2);
    assert("result"@ != "error"@);
}

} // verus!
