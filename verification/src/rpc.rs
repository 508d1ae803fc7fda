//! JSON-RPC commands for a running instance: the requests it accepts and
//! the responses it gives.

use vstd::prelude::*;

verus! {

/// Possible JSON-RPC methods.
#[derive(Debug, Clone)]
pub enum RpcMethod {
    Ping,
    StartCopy { source: String, destination: String, recursive: bool, verify: bool },
    Pause,
    Resume,
    Cancel,
    GetStatus,
}

/// A JSON-RPC request.
#[derive(Debug, Clone)]
pub struct RpcRequest {
    pub jsonrpc: String,
    pub id: u64,
    pub method: RpcMethod,
}

/// A JSON scalar.
#[derive(Debug, Clone)]
pub enum JsonScalar {
    Null,
    Bool(bool),
    Int(i64),
    Str(String),
}

/// The JSON values that results are made of: a scalar, or an object whose
/// members are scalars.
#[derive(Debug, Clone)]
pub enum JsonValue {
    Scalar(JsonScalar),
    Object(Vec<(String, JsonScalar)>),
}

#[derive(Debug, Clone)]
pub struct RpcError {
    pub code: i64,
    pub message: String,
}

/// A JSON-RPC response.
#[derive(Debug, Clone)]
pub struct RpcResponse {
    pub jsonrpc: String,
    pub id: u64,
    pub result: Option<JsonValue>,
    pub error: Option<RpcError>,
}

/// The protocol version every response carries.
pub open spec fn protocol_version() -> Seq<char> {
    "2.0"@
}

/// Create a success response.
pub fn success_response(id: u64, result: JsonValue) -> (r: RpcResponse)
    ensures
        r.jsonrpc@ == protocol_version(),
        r.id == id,
        r.result == Some(result),
        r.error is None,
{
    RpcResponse { jsonrpc: "2.0".to_owned(), id, result: Some(result), error: None }
}

/// Create an error response.
pub fn error_response(id: u64, code: i64, message: String) -> (r: RpcResponse)
    ensures
        r.jsonrpc@ == protocol_version(),
        r.id == id,
        r.result is None,
        r.error == Some(RpcError { code, message }),
{
    RpcResponse { jsonrpc: "2.0".to_owned(), id, result: None, error: Some(RpcError { code, message }) }
}

/// A one-member object `{key: true}`.
fn flag_object(key: &str) -> (r: JsonValue)
    ensures
        r matches JsonValue::Object(m) && m@.len() == 1 && m@[0].0@ == key@
            && m@[0].1 == JsonScalar::Bool(true),
{
    let mut m: Vec<(String, JsonScalar)> = Vec::new();
    m.push((key.to_owned(), JsonScalar::Bool(true)));
    JsonValue::Object(m)
}

/// What each method answers: "pong" to a ping, `{"status": "idle"}` to a
/// status query, `{"accepted": true}` to a copy request, `{"ok": true}` to
/// pause, resume and cancel.
pub open spec fn answers(method: RpcMethod, v: JsonValue) -> bool {
    match method {
        RpcMethod::Ping => v matches JsonValue::Scalar(JsonScalar::Str(s)) && s@ == "pong"@,
        RpcMethod::GetStatus => v matches JsonValue::Object(m) && m@.len() == 1 && m@[0].0@ == "status"@
            && (m@[0].1 matches JsonScalar::Str(s) && s@ == "idle"@),
        RpcMethod::StartCopy { .. } => v matches JsonValue::Object(m) && m@.len() == 1
            && m@[0].0@ == "accepted"@ && m@[0].1 == JsonScalar::Bool(true),
        _ => v matches JsonValue::Object(m) && m@.len() == 1 && m@[0].0@ == "ok"@
            && m@[0].1 == JsonScalar::Bool(true),
    }
}

/// Handles a request: every method succeeds, with the answer above, under
/// the request's id.
pub fn handle_method(req: &RpcRequest) -> (r: RpcResponse)
    ensures
        r.jsonrpc@ == protocol_version(),
        r.id == req.id,
        r.error is None,
        r.result matches Some(v) && answers(req.method, v),
{
    match &req.method {
        RpcMethod::Ping => success_response(req.id, JsonValue::Scalar(JsonScalar::Str("pong".to_owned()))),
        RpcMethod::GetStatus => {
            let mut m: Vec<(String, JsonScalar)> = Vec::new();
            m.push(("status".to_owned(), JsonScalar::Str("idle".to_owned())));
            success_response(req.id, JsonValue::Object(m))
        },
        RpcMethod::StartCopy { .. } => success_response(req.id, flag_object("accepted")),
        RpcMethod::Pause | RpcMethod::Resume | RpcMethod::Cancel => success_response(req.id, flag_object("ok")),
    }
}

} // verus!
