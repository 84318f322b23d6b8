use lsp_msg::id::RequestId;
use lsp_msg::message::{
    CommonContext, Context, ErrorCode, ExtractError, Message, Notification, Request, ResolveContext,
    Response, WorkspaceContext,
};
use serde_json::Value;

#[test]
fn new_ok_has_result_and_no_error() {
    let r = Response::new_ok(RequestId::from(1), Value::String("pong".to_string()));
    assert_eq!(r.result, Some(Value::String("pong".to_string())));
    assert!(r.error.is_none());
    assert!(r.id == RequestId::from(1));
}

#[test]
fn new_err_has_error_and_no_result() {
    let r = Response::new_err(RequestId::from(2), ErrorCode::MethodNotFound.code(), "nope".to_string());
    assert!(r.result.is_none());
    let e = r.error.unwrap();
    assert_eq!(e.code, -32601);
    assert_eq!(e.message, "nope");
    assert!(e.data.is_none());
}

#[test]
fn request_extract_with_wrong_method_gives_it_back() {
    let req = Request::new(RequestId::from(4), "hover".to_string(), Value::from(3));
    match req.extract::<i32>("completion") {
        Err(ExtractError::MethodMismatch(back)) => {
            assert_eq!(back.method, "hover");
            assert!(back.id == RequestId::from(4));
            assert_eq!(back.params.params, Value::from(3));
        }
        _ => panic!("expected a method mismatch"),
    }
}

#[test]
fn request_extract_decodes_payload() {
    let req = Request::new(RequestId::from(4), "hover".to_string(), Value::from(3));
    let (id, p) = req.extract::<i32>("hover").unwrap();
    assert!(id == RequestId::from(4));
    assert_eq!(p, 3);
}

#[test]
fn request_extract_reports_bad_payload() {
    let req = Request::new(RequestId::from(4), "hover".to_string(), Value::String("x".to_string()));
    match req.extract::<i32>("hover") {
        Err(ExtractError::JsonError { method, .. }) => assert_eq!(method, "hover"),
        _ => panic!("expected a decoding error"),
    }
}

#[test]
fn notification_extract() {
    let n = Notification::new("exit".to_string(), Value::Null);
    assert!(n.is_exit());
    assert!(!n.is_initialize());
    match n.extract::<i32>("initialized") {
        Err(ExtractError::MethodMismatch(back)) => assert_eq!(back.method, "exit"),
        _ => panic!("expected a method mismatch"),
    }
    let n = Notification::new("didOpen".to_string(), Value::from(8));
    assert_eq!(n.extract::<u8>("didOpen").unwrap(), 8);
}

#[test]
fn lifecycle_predicates() {
    let r = Request::new(RequestId::from(1), "shutdown".to_string(), Value::Null);
    assert!(r.is_shutdown());
    assert!(!r.is_initialize());
    let r = Request::new(RequestId::from(1), "initialize".to_string(), Value::Null);
    assert!(r.is_initialize());
    assert!(Notification::new("initialize".to_string(), Value::Null).is_initialize());
}

#[test]
fn new_request_has_no_side_channels() {
    let r = Request::new(RequestId::from(1), "a".to_string(), Value::Null);
    assert_eq!(r.uri(), None);
    assert!(r.params.context.is_none());
    let mut n = Notification::new("b".to_string(), Value::Null);
    n.params.uri = Some("file:///x".to_string());
    assert_eq!(n.uri(), Some("file:///x".to_string()));
}

#[test]
fn common_context_wins_when_only_it_decodes() {
    let c = Context::select(None, None, Some(CommonContext { language_server_id: 3 }), None);
    assert!(matches!(c, Some(Context::CommonContext(CommonContext { language_server_id: 3 }))));
}

#[test]
fn resolve_context_beats_common_context() {
    let c = Context::select(
        None,
        Some(ResolveContext { language_server_id: 1, start: 2, end: 5 }),
        Some(CommonContext { language_server_id: 1 }),
        Some(WorkspaceContext { workspace_root: "/".to_string() }),
    );
    assert!(matches!(c, Some(Context::ResolveContext(_))));
    assert!(Context::select(None, None, None, None).is_none());
    let w = Context::select(None, None, None, Some(WorkspaceContext { workspace_root: "/".to_string() }));
    assert!(matches!(w, Some(Context::WorkspaceContext(_))));
}

#[test]
fn message_selection_order() {
    let req = Request::new(RequestId::from(1), "ping".to_string(), Value::Null);
    let resp = Response::new_ok(RequestId::from(1), Value::Null);
    let note = Notification::new("ping".to_string(), Value::Null);
    let m = Message::select(Some(req), Some(resp.clone()), Some(note.clone()), true);
    assert!(matches!(m, Some(Message::Request(_))));
    let m = Message::select(None, Some(resp), Some(note.clone()), true);
    assert!(matches!(m, Some(Message::Response(_))));
    let bare = Response { id: RequestId::from(1), result: None, error: None };
    let m = Message::select(None, Some(bare), Some(note.clone()), false);
    assert!(matches!(m, Some(Message::Notification(_))));
    assert!(Message::select(None, None, Some(note), true).is_none());
}

#[test]
fn message_from_parts() {
    let m: Message = Request::new(RequestId::from(1), "a".to_string(), Value::Null).into();
    assert!(matches!(m, Message::Request(_)));
    let m: Message = Response::new_ok(RequestId::from(1), Value::Null).into();
    assert!(matches!(m, Message::Response(_)));
    let m: Message = Notification::new("b".to_string(), Value::Null).into();
    assert!(matches!(m, Message::Notification(_)));
}

#[test]
fn error_code_values() {
    assert_eq!(ErrorCode::ParseError.code(), -32700);
    assert_eq!(ErrorCode::InvalidRequest.code(), -32600);
    assert_eq!(ErrorCode::InvalidParams.code(), -32602);
    assert_eq!(ErrorCode::InternalError.code(), -32603);
    assert_eq!(ErrorCode::ServerErrorStart.code(), -32099);
    assert_eq!(ErrorCode::ServerErrorEnd.code(), -32000);
    assert_eq!(ErrorCode::ServerNotInitialized.code(), -32002);
    assert_eq!(ErrorCode::UnknownErrorCode.code(), -32001);
    assert_eq!(ErrorCode::RequestCanceled.code(), -32800);
    assert_eq!(ErrorCode::ContentModified.code(), -32801);
    assert_eq!(ErrorCode::ServerCancelled.code(), -32802);
    assert_eq!(ErrorCode::RequestFailed.code(), -32803);
}
