use ferrocopy::rpc::{error_response, handle_method, success_response, JsonScalar, JsonValue, RpcMethod, RpcRequest};

fn request(id: u64, method: RpcMethod) -> RpcRequest {
    RpcRequest { jsonrpc: "2.0".into(), id, method }
}

fn single_member(v: &JsonValue) -> (&str, &JsonScalar) {
    match v {
        JsonValue::Object(m) if m.len() == 1 => (m[0].0.as_str(), &m[0].1),
        other => panic!("expected a one-member object, got {:?}", other),
    }
}

#[test]
fn test_error_response_format() {
    let resp = error_response(1, -32601, "Method not found".into());
    assert_eq!(resp.jsonrpc, "2.0");
    assert!(resp.result.is_none());
    assert_eq!(resp.error.unwrap().code, -32601);
}

#[test]
fn ping_answers_pong() {
    let resp = handle_method(&request(1, RpcMethod::Ping));
    assert_eq!(resp.id, 1);
    assert_eq!(resp.jsonrpc, "2.0");
    assert!(resp.error.is_none());
    assert!(matches!(resp.result, Some(JsonValue::Scalar(JsonScalar::Str(s))) if s == "pong"));
}

#[test]
fn each_method_has_its_answer() {
    let status = handle_method(&request(2, RpcMethod::GetStatus)).result.unwrap();
    let (k, v) = single_member(&status);
    assert_eq!(k, "status");
    assert!(matches!(v, JsonScalar::Str(s) if s == "idle"));
    let start = handle_method(&request(
        3,
        RpcMethod::StartCopy { source: "a".into(), destination: "b".into(), recursive: true, verify: false },
    ));
    assert_eq!(start.id, 3);
    let start = start.result.unwrap();
    let (k, v) = single_member(&start);
    assert_eq!(k, "accepted");
    assert!(matches!(v, JsonScalar::Bool(true)));
    for m in [RpcMethod::Pause, RpcMethod::Resume, RpcMethod::Cancel] {
        let r = handle_method(&request(4, m)).result.unwrap();
        let (k, v) = single_member(&r);
        assert_eq!(k, "ok");
        assert!(matches!(v, JsonScalar::Bool(true)));
    }
}

#[test]
fn success_response_carries_the_result() {
    let resp = success_response(9, JsonValue::Scalar(JsonScalar::Int(5)));
    assert_eq!(resp.id, 9);
    assert!(resp.error.is_none());
    assert!(matches!(resp.result, Some(JsonValue::Scalar(JsonScalar::Int(5)))));
}
