use jsonrpc::rpc::{jsonrpc_error, parse_error_response, parse_request, rejection_code_for, ErrorObject, JsonRpcResponse, RpcError, RpcJson};
use serde_json::Value;

#[test]
fn code_msg_of_each_standard_error() {
    assert_eq!(RpcError::ParseError.code_msg(), (-32700, "Parse error".to_string()));
    assert_eq!(RpcError::InvalidRequest.code_msg(), (-32600, "Invalid Request".to_string()));
    assert_eq!(RpcError::MethodNotFound.code_msg(), (-32601, "Method not found".to_string()));
    assert_eq!(
        RpcError::InvalidParams("missing field `b`".to_string()).code_msg(),
        (-32602, "Invalid params: missing field `b`".to_string())
    );
    assert_eq!(RpcError::InternalError.code_msg(), (-32603, "Internal error".to_string()));
}

#[test]
fn invalid_params_with_empty_detail() {
    assert_eq!(RpcError::InvalidParams(String::new()).code_msg(), (-32602, "Invalid params: ".to_string()));
}

#[test]
fn business_error_round_trip() {
    let e = RpcError::error(500, "div by 0".to_string());
    assert_eq!(e, RpcError::BusinessError(500, "div by 0".to_string()));
    assert_eq!(e.code_msg(), (500, "div by 0".to_string()));
    assert_eq!(RpcError::error(-1, String::new()).code_msg(), (-1, String::new()));
}

#[test]
fn from_result_success() {
    let r = JsonRpcResponse::from_result(Some(Value::from(7)), Ok(Value::from(3)));
    assert_eq!(r.jsonrpc, "2.0");
    assert_eq!(r.id, Some(Value::from(7)));
    assert_eq!(r.result, Some(Value::from(3)));
    assert_eq!(r.error, None);
}

#[test]
fn from_result_error() {
    let r = JsonRpcResponse::from_result(None, Err(RpcError::error(500, "eee".to_string())));
    assert_eq!(r.jsonrpc, "2.0");
    assert_eq!(r.id, None);
    assert_eq!(r.result, None);
    assert_eq!(r.error, Some(ErrorObject { code: 500, message: "eee".to_string() }));
    let r = JsonRpcResponse::from_result(Some(Value::from("a")), Err(RpcError::MethodNotFound));
    assert_eq!(r.id, Some(Value::from("a")));
    assert_eq!(r.error, Some(ErrorObject { code: -32601, message: "Method not found".to_string() }));
}

#[test]
fn success_and_error_builders() {
    let s = JsonRpcResponse::success(Some(Value::Null), None);
    assert_eq!(s.jsonrpc, "2.0");
    assert_eq!(s.id, Some(Value::Null));
    assert_eq!(s.result, None);
    assert_eq!(s.error, None);
    let e = JsonRpcResponse::error(None, Some(ErrorObject { code: 1, message: "m".to_string() }));
    assert_eq!(e.result, None);
    assert_eq!(e.error, Some(ErrorObject { code: 1, message: "m".to_string() }));
}

#[test]
fn jsonrpc_error_builds_error_object() {
    let r = jsonrpc_error(Some(Value::from(1)), -32602, "bad");
    assert_eq!(r.id, Some(Value::from(1)));
    assert_eq!(r.result, None);
    assert_eq!(r.error, Some(ErrorObject { code: -32602, message: "bad".to_string() }));
    assert_eq!(r.jsonrpc, "2.0");
}

#[test]
fn rejection_codes() {
    assert_eq!(rejection_code_for("unknown variant `math:div`, expected one of `math:add`, `sub`"), -32601);
    assert_eq!(rejection_code_for("at the end: unknown variant"), -32601);
    assert_eq!(rejection_code_for("unknown variant"), -32601);
    assert_eq!(rejection_code_for("missing field `b`"), -32602);
    assert_eq!(rejection_code_for("unknown varian"), -32602);
    assert_eq!(rejection_code_for("Unknown variant `x`"), -32602);
    assert_eq!(rejection_code_for(""), -32602);
}

#[test]
fn rejection_of_real_decoder_message() {
    let err = serde_json::from_value::<u32>(Value::from("x")).unwrap_err();
    assert_eq!(rejection_code_for(&err.to_string()), -32602);
}

#[test]
fn parse_error_response_shape() {
    let r = parse_error_response();
    assert_eq!(r.id, None);
    assert_eq!(r.result, None);
    assert_eq!(r.error, Some(ErrorObject { code: -32700, message: "Parse error".to_string() }));
}

#[test]
fn parse_request_refuses_non_json() {
    let r = parse_request("{not json");
    assert_eq!(r.unwrap_err(), parse_error_response());
    assert!(parse_request("").is_err());
    assert!(parse_request("1 2").is_err());
}

#[test]
fn parse_request_takes_the_id_out() {
    let (doc, id) = parse_request(r#"{"id": 5, "method": "add"}"#).unwrap();
    assert_eq!(id, Some(Value::from(5)));
    assert_eq!(doc.get("method"), Some(&Value::from("add")));
    let (_, id) = parse_request(r#"{"method": "add"}"#).unwrap();
    assert_eq!(id, None);
    let (_, id) = parse_request(r#"{"id": null}"#).unwrap();
    assert_eq!(id, Some(Value::Null));
    let (_, id) = parse_request("[1, 2]").unwrap();
    assert_eq!(id, None);
}

#[test]
fn from_decoded_success() {
    let r = RpcJson::from_decoded(Some(Value::from(2)), Ok::<u32, String>(9)).unwrap();
    assert_eq!(r, RpcJson(9, Some(Value::from(2))));
}

#[test]
fn from_decoded_unknown_method() {
    let r = RpcJson::<u32>::from_decoded(Some(Value::from(2)), Err("unknown variant `x`, expected `add`".to_string()));
    let resp = r.unwrap_err();
    assert_eq!(resp.id, Some(Value::from(2)));
    assert_eq!(resp.result, None);
    assert_eq!(
        resp.error,
        Some(ErrorObject { code: -32601, message: "unknown variant `x`, expected `add`".to_string() })
    );
}

#[test]
fn from_decoded_invalid_params() {
    let resp = RpcJson::<u32>::from_decoded(None, Err("missing field `a`".to_string())).unwrap_err();
    assert_eq!(resp.id, None);
    assert_eq!(resp.error, Some(ErrorObject { code: -32602, message: "missing field `a`".to_string() }));
}
