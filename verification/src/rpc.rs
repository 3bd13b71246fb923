use vstd::prelude::*;
use vstd::string::{StrSliceExecFns, StringExecFns};
use serde_json::Value;
use crate::json::{is_json_document, json_document, json_member, member, parse_document};

verus! {

/// The errors a method can answer with. The first five are the errors that
/// JSON-RPC 2.0 reserves for itself; `BusinessError` carries a code and a
/// message chosen by the application.
#[derive(Debug, Clone, PartialEq)]
pub enum RpcError {
    ParseError,
    InvalidRequest,
    MethodNotFound,
    InvalidParams(String),
    InternalError,
    BusinessError(i32, String),
}

/// The code that an error is answered with.
pub open spec fn error_code(e: RpcError) -> int {
    match e {
        RpcError::ParseError => -32700,
        RpcError::InvalidRequest => -32600,
        RpcError::MethodNotFound => -32601,
        RpcError::InvalidParams(_) => -32602,
        RpcError::InternalError => -32603,
        RpcError::BusinessError(c, _) => c as int,
    }
}

/// The message that an error is answered with.
pub open spec fn error_message(e: RpcError) -> Seq<char> {
    match e {
        RpcError::ParseError => "Parse error"@,
        RpcError::InvalidRequest => "Invalid Request"@,
        RpcError::MethodNotFound => "Method not found"@,
        RpcError::InvalidParams(m) => "Invalid params: "@ + m@,
        RpcError::InternalError => "Internal error"@,
        RpcError::BusinessError(_, m) => m@,
    }
}

impl RpcError {
    /// An application error with the given code and message.
    pub fn error(code: i32, message: String) -> (r: RpcError)
        ensures
            r == RpcError::BusinessError(code, message),
    {
        RpcError::BusinessError(code, message)
    }

    /// The code and message that this error is answered with.
    pub fn code_msg(&self) -> (r: (i32, String))
        ensures
            r.0 == error_code(*self),
            r.1@ == error_message(*self),
    {
        match self {
            RpcError::ParseError => (-32700, String::from_str("Parse error")),
            RpcError::InvalidRequest => (-32600, String::from_str("Invalid Request")),
            RpcError::MethodNotFound => (-32601, String::from_str("Method not found")),
            RpcError::InvalidParams(m) => {
                let text = String::from_str("Invalid params: ");
                (-32602, text.concat(m.as_str()))
            },
            RpcError::InternalError => (-32603, String::from_str("Internal error")),
            RpcError::BusinessError(c, m) => (*c, m.clone()),
        }
    }
}

} // verus!

verus! {

/// The `error` member of a response: a code and a message.
#[derive(Debug, Clone, PartialEq)]
pub struct ErrorObject {
    pub code: i32,
    pub message: String,
}

/// A JSON-RPC 2.0 response. Exactly one of `result` and `error` is present in the
/// responses that this library builds; `id` echoes the request's id.
#[derive(Debug, Clone, PartialEq)]
pub struct JsonRpcResponse {
    pub jsonrpc: &'static str,
    pub result: Option<Value>,
    pub error: Option<ErrorObject>,
    pub id: Option<Value>,
}

/// `o` is the error object for code `code` and message `message`.
pub open spec fn error_object_is(o: Option<ErrorObject>, code: int, message: Seq<char>) -> bool {
    o matches Some(e) && e.code == code && e.message@ == message
}

/// `r` is the response to a request with id `id` whose method gave `res`.
pub open spec fn answers(r: JsonRpcResponse, id: Option<Value>, res: Result<Value, RpcError>) -> bool {
    &&& r.jsonrpc@ == "2.0"@
    &&& r.id == id
    &&& match res {
        Ok(v) => r.result == Some(v) && r.error is None,
        Err(e) => r.result is None && error_object_is(r.error, error_code(e), error_message(e)),
    }
}

/// `r` is the error response with id `id`, code `code` and message `message`.
pub open spec fn is_error_response(r: JsonRpcResponse, id: Option<Value>, code: int, message: Seq<char>) -> bool {
    &&& r.jsonrpc@ == "2.0"@
    &&& r.id == id
    &&& r.result is None
    &&& error_object_is(r.error, code, message)
}

impl JsonRpcResponse {
    /// The response for a request with id `id` whose method returned `res`: its
    /// value as `result`, or its error's code and message as `error`.
    pub fn from_result(id: Option<Value>, res: Result<Value, RpcError>) -> (r: JsonRpcResponse)
        ensures
            answers(r, id, res),
            r.id == id,
            r.jsonrpc@ == "2.0"@,
            res matches Ok(v) ==> (r.result == Some(v) && r.error is None),
            res matches Err(e) ==> (r.result is None && error_object_is(r.error, error_code(e), error_message(e))),
    {
        match res {
            Ok(val) => Self::success(id, Some(val)),
            Err(err) => {
                let (code, message) = err.code_msg();
                Self::error(id, Some(ErrorObject { code, message }))
            },
        }
    }

    /// An error response.
    pub fn error(id: Option<Value>, error: Option<ErrorObject>) -> (r: JsonRpcResponse)
        ensures
            r.jsonrpc@ == "2.0"@,
            r.id == id,
            r.result is None,
            r.error == error,
    {
        JsonRpcResponse { jsonrpc: "2.0", error, id, result: None }
    }

    /// A successful response.
    pub fn success(id: Option<Value>, result: Option<Value>) -> (r: JsonRpcResponse)
        ensures
            r.jsonrpc@ == "2.0"@,
            r.id == id,
            r.result == result,
            r.error is None,
    {
        JsonRpcResponse { jsonrpc: "2.0", result, id, error: None }
    }
}

/// The error response with the given id, code and message.
pub fn jsonrpc_error(id: Option<Value>, code: i32, message: &str) -> (r: JsonRpcResponse)
    ensures
        is_error_response(r, id, code as int, message@),
{
    JsonRpcResponse::error(id, Some(ErrorObject { code, message: String::from_str(message) }))
}

/// `p` occurs in `s` at position `i`.
pub open spec fn occurs_at(s: Seq<char>, p: Seq<char>, i: int) -> bool {
    0 <= i && i + p.len() <= s.len() && s.subrange(i, i + p.len()) == p
}

/// `p` occurs somewhere in `s`.
pub open spec fn contains_text(s: Seq<char>, p: Seq<char>) -> bool {
    exists|i: int| occurs_at(s, p, i)
}

/// The code with which a request is refused whose payload could not be decoded,
/// given the decoder's message: an unknown method name is "Method not found",
/// anything else "Invalid params".
pub open spec fn rejection_code(message: Seq<char>) -> int {
    if contains_text(message, "unknown variant"@) {
        -32601
    } else {
        -32602
    }
}

/// The characters of `s`, one by one.
fn chars_of(s: &str) -> (v: Vec<char>)
    ensures
        v@ == s@,
{
    let n: usize = s.unicode_len();
    let mut v: Vec<char> = Vec::new();
    let mut i: usize = 0;
    while i < n
        invariant
            n == s@.len(),
            i <= n,
            v@ == s@.take(i as int),
        decreases n - i,
    {
        let c = s.get_char(i);
        v.push(c);
        i += 1;
        assert(v@ =~= s@.take(i as int));
    }
    assert(v@ =~= s@);
    v
}

/// Whether `p` occurs in `s` at position `i`.
fn occurs_at_index(s: &Vec<char>, p: &Vec<char>, i: usize) -> (b: bool)
    requires
        i + p@.len() <= s@.len(),
    ensures
        b == occurs_at(s@, p@, i as int),
{
    let n: usize = s.len();
    let mut j: usize = 0;
    while j < p.len()
        invariant
            n == s@.len(),
            j <= p@.len(),
            i + p@.len() <= s@.len(),
            forall|k: int| 0 <= k < j ==> s@[i + k] == p@[k],
        decreases p@.len() - j,
    {
        if s[i + j] != p[j] {
            assert(s@.subrange(i as int, i + p@.len())[j as int] != p@[j as int]);
            return false;
        }
        j += 1;
    }
    assert(s@.subrange(i as int, i + p@.len()) =~= p@);
    true
}

/// Whether `p` occurs anywhere in `s`.
fn contains_chars(s: &Vec<char>, p: &Vec<char>) -> (b: bool)
    ensures
        b == contains_text(s@, p@),
{
    if p.len() > s.len() {
        return false;
    }
    if p.len() == 0 {
        assert(s@.subrange(0, 0) =~= p@);
        assert(occurs_at(s@, p@, 0));
        return true;
    }
    let n: usize = s.len();
    let last: usize = n - p.len();
    let mut i: usize = 0;
    while i <= last
        invariant
            n == s@.len(),
            p@.len() > 0,
            last == s@.len() - p@.len(),
            i <= last + 1,
            forall|k: int| 0 <= k < i ==> !occurs_at(s@, p@, k),
        decreases last + 1 - i,
    {
        if occurs_at_index(s, p, i) {
            return true;
        }
        i += 1;
    }
    false
}

/// The code for a payload that the decoder refused with `message`.
pub fn rejection_code_for(message: &str) -> (code: i32)
    ensures
        code == rejection_code(message@),
        contains_text(message@, "unknown variant"@) ==> code == -32601,
        !contains_text(message@, "unknown variant"@) ==> code == -32602,
{
    let text = chars_of(message);
    let pattern = chars_of("unknown variant");
    if contains_chars(&text, &pattern) {
        -32601
    } else {
        -32602
    }
}

/// A decoded request: its payload and its id.
#[derive(Debug, PartialEq)]
pub struct RpcJson<T>(pub T, pub Option<Value>);

/// The response to a body that is not JSON.
pub fn parse_error_response() -> (r: JsonRpcResponse)
    ensures
        is_error_response(r, None, -32700, "Parse error"@),
{
    jsonrpc_error(None, -32700, "Parse error")
}

/// Takes the request's id out of a parsed document; the document stays whole.
pub fn split_id(document: Value) -> (r: (Value, Option<Value>))
    ensures
        r.0 == document,
        r.1 == json_member(document, "id"@),
{
    let id = member(&document, "id");
    (document, id)
}

/// The first stage of decoding a request: the body must be one JSON document;
/// the document and its id come back, or the "Parse error" response.
pub fn parse_request(text: &str) -> (r: Result<(Value, Option<Value>), JsonRpcResponse>)
    ensures
        r is Ok <==> is_json_document(text@),
        r matches Err(resp) ==> is_error_response(resp, None, -32700, "Parse error"@),
        r matches Ok((d, id)) ==> d == json_document(text@) && id == json_member(d, "id"@),
{
    match parse_document(text) {
        Some(document) => Ok(split_id(document)),
        None => Err(parse_error_response()),
    }
}

impl<T> RpcJson<T> {
    /// The last stage of decoding a request, given its id and what decoding its
    /// payload gave: the payload with the id, or, where the decoder refused the
    /// payload with a message, the error response that echoes the id and carries
    /// that message under the code `rejection_code` gives.
    pub fn from_decoded(id: Option<Value>, decoded: Result<T, String>) -> (r: Result<RpcJson<T>, JsonRpcResponse>)
        ensures
            match decoded {
                Ok(payload) => r == Ok::<RpcJson<T>, JsonRpcResponse>(RpcJson(payload, id)),
                Err(message) => r matches Err(resp) && is_error_response(resp, id, rejection_code(message@), message@),
            },
    {
        match decoded {
            Ok(payload) => Ok(RpcJson(payload, id)),
            Err(message) => {
                let code: i32 = rejection_code_for(message.as_str());
                Err(jsonrpc_error(id, code, message.as_str()))
            },
        }
    }
}

} // verus!

verus! {

/// An application error answers with exactly the code and message it was made with.
pub proof fn lemma_business_error_round_trip(code: i32, message: String)
    ensures
        error_code(RpcError::BusinessError(code, message)) == code,
        error_message(RpcError::BusinessError(code, message)) == message@,
{
}

/// The five protocol errors answer with codes from the range JSON-RPC 2.0
/// reserves, -32768 to -32000, and no two of them share a code.
pub proof fn lemma_standard_codes_reserved(a: RpcError, b: RpcError)
    requires
        !(a is BusinessError),
        !(b is BusinessError),
    ensures
        -32768 <= error_code(a) <= -32000,
        error_code(a) == error_code(b) ==> (a is ParseError <==> b is ParseError) && (a is InvalidRequest
            <==> b is InvalidRequest) && (a is MethodNotFound <==> b is MethodNotFound) && (a is InvalidParams
            <==> b is InvalidParams) && (a is InternalError <==> b is InternalError),
{
}

/// A response to a request carries its id and either a result or an error, never
/// both and never neither.
pub proof fn lemma_answer_has_result_or_error(r: JsonRpcResponse, id: Option<Value>, res: Result<Value, RpcError>)
    requires
        answers(r, id, res),
    ensures
        r.id == id,
        r.result is Some <==> r.error is None,
{
}

/// A payload the decoder refuses is answered either "Method not found" or
/// "Invalid params", the latter unless the decoder names an unknown variant.
pub proof fn lemma_rejection_codes(message: Seq<char>)
    ensures
        rejection_code(message) == -32601 || rejection_code(message) == -32602,
        !contains_text(message, "unknown variant"@) ==> rejection_code(message) == -32602,
        contains_text(message, "unknown variant"@) ==> rejection_code(message) == -32601,
{
}

/// The response to a method that returned a value carries that value and no
/// error, whatever the request's id; the response to a method that failed carries
/// no result.
pub proof fn lemma_answer_to_success_is_its_value(r: JsonRpcResponse, id: Option<Value>, res: Result<Value, RpcError>)
    requires
        answers(r, id, res),
    ensures
        res matches Ok(v) ==> (r.result == Some(v) && r.error is None),
        res is Err ==> (r.result is None && r.error is Some),
        r.id == id,
{
}

/// The code and message each error is answered with.
pub proof fn lemma_error_codes(detail: String, code: i32, message: String)
    ensures
        error_code(RpcError::ParseError) == -32700 && error_message(RpcError::ParseError) == "Parse error"@,
        error_code(RpcError::InvalidRequest) == -32600 && error_message(RpcError::InvalidRequest) == "Invalid Request"@,
        error_code(RpcError::MethodNotFound) == -32601 && error_message(RpcError::MethodNotFound) == "Method not found"@,
        error_code(RpcError::InvalidParams(detail)) == -32602,
        error_message(RpcError::InvalidParams(detail)) == "Invalid params: "@ + detail@,
        error_code(RpcError::InternalError) == -32603 && error_message(RpcError::InternalError) == "Internal error"@,
        error_code(RpcError::BusinessError(code, message)) == code,
        error_message(RpcError::BusinessError(code, message)) == message@,
{
}

} // verus!
