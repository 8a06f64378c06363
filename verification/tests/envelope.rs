use ws_gateway::envelope::{
    encode_envelope, frame_envelope, Envelope, CODE_AUTHENTICATED, CODE_PUSHED_EVENT,
};

#[test]
fn greeting_envelope_is_compact_json() {
    let bytes = encode_envelope(CODE_AUTHENTICATED, "Alice");
    assert_eq!(bytes, b"{\"code\":0,\"msg\":\"Alice\"}".to_vec());
}

#[test]
fn pushed_event_envelope_is_compact_json() {
    let bytes = encode_envelope(CODE_PUSHED_EVENT, "event-1");
    assert_eq!(bytes, b"{\"code\":2,\"msg\":\"event-1\"}".to_vec());
}

#[test]
fn empty_body_is_an_empty_json_string() {
    assert_eq!(encode_envelope(0, ""), b"{\"code\":0,\"msg\":\"\"}".to_vec());
}

#[test]
fn codes_are_written_in_decimal() {
    assert_eq!(encode_envelope(9, "x"), b"{\"code\":9,\"msg\":\"x\"}".to_vec());
    assert_eq!(encode_envelope(10, "x"), b"{\"code\":10,\"msg\":\"x\"}".to_vec());
    assert_eq!(encode_envelope(42, "x"), b"{\"code\":42,\"msg\":\"x\"}".to_vec());
    assert_eq!(encode_envelope(99, "x"), b"{\"code\":99,\"msg\":\"x\"}".to_vec());
    assert_eq!(encode_envelope(100, "x"), b"{\"code\":100,\"msg\":\"x\"}".to_vec());
    assert_eq!(encode_envelope(107, "x"), b"{\"code\":107,\"msg\":\"x\"}".to_vec());
    assert_eq!(encode_envelope(255, "x"), b"{\"code\":255,\"msg\":\"x\"}".to_vec());
}

#[test]
fn body_is_escaped_as_json() {
    let bytes = encode_envelope(2, "say \"hi\"\\\n");
    assert_eq!(bytes, b"{\"code\":2,\"msg\":\"say \\\"hi\\\"\\\\\\n\"}".to_vec());
}

#[test]
fn body_keeps_text_outside_ascii() {
    let bytes = encode_envelope(2, "客户端");
    assert_eq!(bytes, "{\"code\":2,\"msg\":\"客户端\"}".as_bytes().to_vec());
}

#[test]
fn wire_form_reads_back_as_the_envelope() {
    let body = "tab\there, quote \" and \u{1} control";
    let bytes = encode_envelope(2, body);
    let value: serde_json::Value = serde_json::from_slice(&bytes).unwrap();
    let object = value.as_object().unwrap();
    assert_eq!(object.len(), 2);
    assert_eq!(object.get("code").and_then(|c| c.as_u64()), Some(2));
    assert_eq!(object.get("msg").and_then(|m| m.as_str()), Some(body));
}

#[test]
fn frame_wraps_a_written_body() {
    let literal = b"\"Bob\"".to_vec();
    assert_eq!(frame_envelope(0, &literal), b"{\"code\":0,\"msg\":\"Bob\"}".to_vec());
    assert_eq!(frame_envelope(200, &literal), b"{\"code\":200,\"msg\":\"Bob\"}".to_vec());
}

#[test]
fn envelope_constructors_set_the_code() {
    let greeting = Envelope::authenticated("Alice".to_string());
    assert_eq!(greeting.code, 0);
    assert_eq!(greeting.msg, "Alice");
    assert_eq!(greeting.encode(), b"{\"code\":0,\"msg\":\"Alice\"}".to_vec());
    let pushed = Envelope::pushed_event("event-1".to_string());
    assert_eq!(pushed.code, 2);
    assert_eq!(pushed.msg, "event-1");
    assert_eq!(pushed.encode(), b"{\"code\":2,\"msg\":\"event-1\"}".to_vec());
}
