use jsonrpc::rpc::{ErrorObject, JsonRpcResponse, RpcError};
use jsonrpc::ws::{answer_for, auth_failure_text, login_user, present_id_or_null, step, verify_token, AuthPacket, Phase, SocketAction, SocketEvent, S};
use serde_json::Value;

fn packet(method: &str, token: &str) -> AuthPacket {
    AuthPacket { method: method.to_string(), token: token.to_string() }
}

#[test]
fn verify_token_accepts_every_token() {
    assert_eq!(verify_token("abc".to_string()), Some(S { name: "abc".to_string() }));
    assert_eq!(verify_token(String::new()), Some(S { name: String::new() }));
}

#[test]
fn login_needs_the_login_method() {
    let u = login_user(3, 11, Some(packet("login", "alice"))).unwrap();
    assert_eq!(u.conn_id, 3);
    assert_eq!(u.name, "alice");
    assert_eq!(u.login_at, 0);
    assert!(u.rooms.is_empty());
    assert_eq!(u.session, 11);
    assert!(login_user(3, 11, Some(packet("logout", "alice"))).is_none());
    assert!(login_user(3, 11, Some(packet("Login", "alice"))).is_none());
    assert!(login_user(3, 11, None).is_none());
}

#[test]
fn auth_failure_text_is_fixed() {
    assert_eq!(auth_failure_text(), "Auth Failed");
}

#[test]
fn missing_id_becomes_null() {
    assert_eq!(present_id_or_null(None), Some(Value::Null));
    assert_eq!(present_id_or_null(Some(Value::from(4))), Some(Value::from(4)));
}

#[test]
fn notifications_get_no_answer() {
    assert_eq!(answer_for(None, Ok(Value::from(1))), None);
    assert_eq!(answer_for(None, Err(RpcError::InternalError)), None);
    let a = answer_for(Some(Value::Null), Ok(Value::from(1))).unwrap();
    assert_eq!(a, JsonRpcResponse::from_result(Some(Value::Null), Ok(Value::from(1))));
}

#[test]
fn session_login_then_requests_then_close() {
    let (p, a) = step(&Phase::AwaitingLogin, 0, 5, SocketEvent::FirstFrame(Some(packet("login", "bob"))));
    assert_eq!(p, Phase::Serving(0));
    match a {
        SocketAction::Register(u) => {
            assert_eq!(u.name, "bob");
            assert_eq!(u.session, 5);
            assert_eq!(u.conn_id, 0);
        }
        other => panic!("unexpected {:?}", other),
    }
    let (p, a) = step(&p, 0, 5, SocketEvent::Executed(Some(Value::from(1)), Ok(Value::from(3))));
    assert_eq!(p, Phase::Serving(0));
    assert_eq!(a, SocketAction::Reply(JsonRpcResponse::from_result(Some(Value::from(1)), Ok(Value::from(3)))));
    let (p, a) = step(&p, 0, 5, SocketEvent::Executed(None, Ok(Value::from(3))));
    assert_eq!(p, Phase::Serving(0));
    assert_eq!(a, SocketAction::Ignore);
    let bad = JsonRpcResponse::error(None, Some(ErrorObject { code: -32700, message: "Parse error".to_string() }));
    let (p, a) = step(&p, 0, 5, SocketEvent::Undecodable(bad.clone()));
    assert_eq!(a, SocketAction::Reply(bad));
    let (p, a) = step(&p, 0, 5, SocketEvent::Closed);
    assert_eq!(p, Phase::Finished);
    assert_eq!(a, SocketAction::Unregister(0, 5));
}

#[test]
fn session_refuses_a_bad_first_frame() {
    let (p, a) = step(&Phase::AwaitingLogin, 0, 5, SocketEvent::FirstFrame(None));
    assert_eq!(p, Phase::Finished);
    assert_eq!(a, SocketAction::Refuse("Auth Failed".to_string()));
    let (p, a) = step(&Phase::AwaitingLogin, 0, 5, SocketEvent::FirstFrame(Some(packet("join", "x"))));
    assert_eq!(p, Phase::Finished);
    assert_eq!(a, SocketAction::Refuse("Auth Failed".to_string()));
    let (p, a) = step(&Phase::AwaitingLogin, 0, 5, SocketEvent::Closed);
    assert_eq!(p, Phase::Finished);
    assert_eq!(a, SocketAction::Refuse("Auth Failed".to_string()));
}

#[test]
fn session_ignores_events_out_of_turn() {
    let (p, a) = step(&Phase::AwaitingLogin, 0, 5, SocketEvent::Executed(Some(Value::from(1)), Ok(Value::Null)));
    assert_eq!(p, Phase::AwaitingLogin);
    assert_eq!(a, SocketAction::Ignore);
    let (p, a) = step(&Phase::Serving(2), 0, 5, SocketEvent::FirstFrame(Some(packet("login", "x"))));
    assert_eq!(p, Phase::Serving(2));
    assert_eq!(a, SocketAction::Ignore);
    let (p, a) = step(&Phase::Finished, 0, 5, SocketEvent::Closed);
    assert_eq!(p, Phase::Finished);
    assert_eq!(a, SocketAction::Ignore);
}

#[test]
fn null_id_is_the_parsed_null_document() {
    let parsed: Value = serde_json::from_str("null").unwrap();
    assert_eq!(present_id_or_null(None), Some(parsed));
    assert_eq!(present_id_or_null(Some(Value::Null)), Some(Value::Null));
}
