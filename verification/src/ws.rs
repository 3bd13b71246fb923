use vstd::prelude::*;
use vstd::string::StringExecFns;
use serde_json::Value;
use crate::json::{json_document, null_value};
use crate::rpc::{answers, JsonRpcResponse, RpcError};
use crate::state::UserInfo;

verus! {

/// The login request a client sends first: `{"method": "login", "token": ...}`.
#[derive(Debug, Clone, PartialEq)]
pub struct AuthPacket {
    pub method: String,
    pub token: String,
}

/// What a token stands for once it is verified.
#[derive(Debug, Clone, PartialEq)]
pub struct S {
    pub name: String,
}

/// Verifies a login token. Every token is accepted, and the name it stands for is
/// the token itself.
pub fn verify_token(token: String) -> (r: Option<S>)
    ensures
        r matches Some(s) && s.name == token,
{
    Some(S { name: token })
}

/// The text a client is sent when its login is refused.
pub fn auth_failure_text() -> (r: String)
    ensures
        r@ == "Auth Failed"@,
{
    String::from_str("Auth Failed")
}

/// `packet` asks to log in.
pub open spec fn is_login(packet: Option<AuthPacket>) -> bool {
    packet matches Some(p) && p.method@ == "login"@
}

/// The user that a login packet logs in on connection `conn_id`, or `None` where
/// there is no packet, or it is not a login request.
pub fn login_user(conn_id: u32, session: u64, packet: Option<AuthPacket>) -> (r: Option<UserInfo>)
    ensures
        r is Some <==> is_login(packet),
        (packet matches Some(p) && p.method@ == "login"@) ==> r is Some,
        r is Some ==> (packet matches Some(p) && p.method@ == "login"@),
        r matches Some(u) ==> packet matches Some(p) && {
            &&& u.conn_id == conn_id
            &&& u.name@ == p.token@
            &&& u.login_at == 0
            &&& u.rooms@.len() == 0
            &&& u.session == session
        },
{
    match packet {
        None => None,
        Some(p) => {
            let AuthPacket { method, token } = p;
            let verified = verify_token(token);
            let login = String::from_str("login");
            match verified {
                Some(user) => {
                    if method == login {
                        Some(UserInfo { conn_id, name: user.name, login_at: 0, rooms: Vec::new(), session })
                    } else {
                        None
                    }
                },
                None => None,
            }
        },
    }
}

/// The id of an incoming packet, where reading it gave `read`: a missing or
/// unreadable id becomes JSON `null`.
pub fn present_id_or_null(read: Option<Value>) -> (r: Option<Value>)
    ensures
        r is Some,
        read is Some ==> r == read,
        read is None ==> r == Some(json_document("null"@)),
{
    match read {
        Some(v) => Some(v),
        None => Some(null_value()),
    }
}

/// What is sent back for a request with id `id` whose method gave `res`: the
/// response, where the request has an id; nothing for a notification.
pub fn answer_for(id: Option<Value>, res: Result<Value, RpcError>) -> (r: Option<JsonRpcResponse>)
    ensures
        r is Some <==> id is Some,
        r matches Some(resp) ==> answers(resp, id, res),
{
    let need_response: bool = id.is_some();
    let resp = JsonRpcResponse::from_result(id, res);
    if need_response {
        Some(resp)
    } else {
        None
    }
}

/// Where a connection stands.
#[derive(Debug, Clone, Copy, PartialEq)]
pub enum Phase {
    /// Waiting for the first frame, which must log the client in.
    AwaitingLogin,
    /// Serving requests for the login on this connection id.
    Serving(u32),
    /// Done: the connection is to be closed.
    Finished,
}

/// What happened on a connection.
#[derive(Debug, PartialEq)]
pub enum SocketEvent {
    /// The first frame came: the login packet it carried, or `None` where no text
    /// frame came in time or its text is not a login packet.
    FirstFrame(Option<AuthPacket>),
    /// A request was decoded and its method ran: the request's id and the result.
    Executed(Option<Value>, Result<Value, RpcError>),
    /// A text frame could not be decoded as a request; the error response to send.
    Undecodable(JsonRpcResponse),
    /// The connection ended.
    Closed,
}

/// What the connection's driver is to do.
#[derive(Debug, Clone, PartialEq)]
pub enum SocketAction {
    /// Put this user into the shared state, then serve the connection.
    Register(UserInfo),
    /// Send this text, then close the connection.
    Refuse(String),
    /// Send this response.
    Reply(JsonRpcResponse),
    /// Take this login (connection id, session) out of the shared state.
    Unregister(u32, u64),
    /// Nothing.
    Ignore,
}

/// `a` registers the user that `p` logs in on connection `conn_id` with `session`.
pub open spec fn registers(a: SocketAction, conn_id: u32, session: u64, p: AuthPacket) -> bool {
    a matches SocketAction::Register(u) && {
        &&& u.conn_id == conn_id
        &&& u.name@ == p.token@
        &&& u.login_at == 0
        &&& u.rooms@.len() == 0
        &&& u.session == session
    }
}

/// `a` refuses the login.
pub open spec fn refuses(a: SocketAction) -> bool {
    a matches SocketAction::Refuse(t) && t@ == "Auth Failed"@
}

/// `a` sends the response to a request with id `id` whose method gave `res`.
pub open spec fn replies(a: SocketAction, id: Option<Value>, res: Result<Value, RpcError>) -> bool {
    a matches SocketAction::Reply(resp) && answers(resp, id, res)
}

/// The next phase and action of a connection with id `conn_id`, whose login would
/// be `session`, on `event` in `phase`.
pub fn step(phase: &Phase, conn_id: u32, session: u64, event: SocketEvent) -> (r: (Phase, SocketAction))
    ensures
        match (*phase, event) {
            (Phase::AwaitingLogin, SocketEvent::FirstFrame(packet)) => if is_login(packet) {
                r.0 == Phase::Serving(conn_id) && registers(r.1, conn_id, session, packet->0)
            } else {
                r.0 == Phase::Finished && refuses(r.1)
            },
            (Phase::AwaitingLogin, SocketEvent::Closed) => r.0 == Phase::Finished && refuses(r.1),
            (Phase::Serving(c), SocketEvent::Executed(id, res)) => r.0 == Phase::Serving(c) && if id is Some {
                replies(r.1, id, res)
            } else {
                r.1 is Ignore
            },
            (Phase::Serving(c), SocketEvent::Undecodable(resp)) =>
                r.0 == Phase::Serving(c) && r.1 == SocketAction::Reply(resp),
            (Phase::Serving(c), SocketEvent::Closed) =>
                r.0 == Phase::Finished && r.1 == SocketAction::Unregister(c, session),
            _ => r.0 == *phase && r.1 is Ignore,
        },
{
    match phase {
        Phase::AwaitingLogin => match event {
            SocketEvent::FirstFrame(packet) => match login_user(conn_id, session, packet) {
                Some(user) => (Phase::Serving(conn_id), SocketAction::Register(user)),
                None => (Phase::Finished, SocketAction::Refuse(auth_failure_text())),
            },
            SocketEvent::Closed => (Phase::Finished, SocketAction::Refuse(auth_failure_text())),
            _ => (Phase::AwaitingLogin, SocketAction::Ignore),
        },
        Phase::Serving(c) => match event {
            SocketEvent::Executed(id, res) => match answer_for(id, res) {
                Some(resp) => (Phase::Serving(*c), SocketAction::Reply(resp)),
                None => (Phase::Serving(*c), SocketAction::Ignore),
            },
            SocketEvent::Undecodable(resp) => (Phase::Serving(*c), SocketAction::Reply(resp)),
            SocketEvent::Closed => (Phase::Finished, SocketAction::Unregister(*c, session)),
            _ => (Phase::Serving(*c), SocketAction::Ignore),
        },
        Phase::Finished => (Phase::Finished, SocketAction::Ignore),
    }
}

/// A packet logs in exactly when its method is "login", whatever its token.
pub proof fn lemma_login_method_decides(packet: Option<AuthPacket>)
    ensures
        is_login(packet) <==> (packet matches Some(p) && p.method@ == "login"@),
{
}

} // verus!
