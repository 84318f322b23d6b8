use lsp_msg::framing::{outgoing_frame, write_msg_text};
use lsp_msg::id::RequestId;
use lsp_msg::message::{
    CommonContext, Context, ErrorCode, Message, Notification, Request, Response, ResolveContext,
};
use serde_json::Value;

fn envelope_text(m: Message) -> String {
    serde_json::to_string(&Value::Object(m.to_envelope())).unwrap()
}

#[test]
fn pong_response_goes_out_as_expected_frame() {
    let r = Response::new_ok(RequestId::from(1), Value::String("pong".to_string()));
    let text = envelope_text(Message::from(r));
    assert_eq!(text, "{\"jsonrpc\":\"2.0\",\"id\":1,\"result\":\"pong\"}");
    let frame = outgoing_frame(Err("unavailable".to_string()), text.clone());
    assert_eq!(frame, write_msg_text(&text));
    assert_eq!(
        frame,
        b"Content-Length: 40\r\n\r\n{\"jsonrpc\":\"2.0\",\"id\":1,\"result\":\"pong\"}".to_vec()
    );
}

#[test]
fn error_response_carries_no_result() {
    let r = Response::new_err(
        RequestId::from("a".to_string()),
        ErrorCode::InvalidParams.code(),
        "bad".to_string(),
    );
    let text = envelope_text(Message::from(r));
    assert_eq!(text, "{\"jsonrpc\":\"2.0\",\"id\":\"a\",\"error\":{\"code\":-32602,\"message\":\"bad\"}}");
    assert!(!text.contains("result"));
}

#[test]
fn ok_response_carries_no_error() {
    let r = Response::new_ok(RequestId::from(9), Value::Null);
    let m = Message::from(r).to_envelope();
    assert!(m.contains_key("result"));
    assert!(!m.contains_key("error"));
}

#[test]
fn ids_are_bare_on_the_wire() {
    assert_eq!(lsp_msg::envelope::id_value(RequestId::from(92)), Value::from(92));
    assert_eq!(
        lsp_msg::envelope::id_value(RequestId::from("92".to_string())),
        Value::String("92".to_string())
    );
}

#[test]
fn request_envelope_omits_null_payload() {
    let q = Request::new(RequestId::from(1), "ping".to_string(), Value::Null);
    assert_eq!(
        envelope_text(Message::from(q)),
        "{\"jsonrpc\":\"2.0\",\"id\":1,\"method\":\"ping\",\"params\":{\"uri\":null,\"context\":null}}"
    );
}

#[test]
fn notification_envelope_has_no_id() {
    let mut n = Notification::new("didOpen".to_string(), Value::from(5));
    n.params.uri = Some("file:///a".to_string());
    n.params.context = Some(Context::CommonContext(CommonContext { language_server_id: 2 }));
    assert_eq!(
        envelope_text(Message::from(n)),
        "{\"jsonrpc\":\"2.0\",\"method\":\"didOpen\",\"params\":{\"uri\":\"file:///a\",\"context\":{\"language-server-id\":2},\"params\":5}}"
    );
}

#[test]
fn resolve_context_object_fields() {
    let c = Context::ResolveContext(ResolveContext { language_server_id: 1, start: -2, end: 3 });
    let v = Value::Object(lsp_msg::envelope::context_object(c));
    assert_eq!(
        serde_json::to_string(&v).unwrap(),
        "{\"language-server-id\":1,\"start\":-2,\"end\":3}"
    );
}

#[test]
fn json_text_and_field_lookup() {
    let r = Response::new_ok(RequestId::from(1), Value::String("pong".to_string()));
    let v = Value::Object(Message::from(r).to_envelope());
    assert_eq!(
        lsp_msg::envelope::to_json_text(&v),
        "{\"jsonrpc\":\"2.0\",\"id\":1,\"result\":\"pong\"}"
    );
    assert!(lsp_msg::envelope::has_field(&v, "id"));
    assert!(!lsp_msg::envelope::has_field(&v, "error"));
    assert!(!lsp_msg::envelope::has_field(&Value::from(3), "id"));
}
