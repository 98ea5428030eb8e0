//! Requests and responses of the protocol.

use vstd::prelude::*;

use crate::decimal::{decimal, decimal_denotes_the_number, is_digit, write_decimal};
use crate::mcp::json::{Json, JsonModel};

verus! {

/// The revision of the protocol that is spoken.
pub const MCP_PROTOCOL_VERSION: &'static str = "2026-07-28";

/// The identifier of a request.
#[derive(Debug, PartialEq, Eq)]
pub enum McpId {
    /// A number.
    Number(i64),
    /// A text.
    Text(String),
}

/// An identifier as a mathematical value.
pub enum IdModel {
    Number(i64),
    Text(Seq<char>),
}

impl View for McpId {
    type V = IdModel;

    open spec fn view(&self) -> IdModel {
        match self {
            McpId::Number(n) => IdModel::Number(*n),
            McpId::Text(text) => IdModel::Text(text@),
        }
    }
}

/// The decimal notation of a number with its sign.
pub open spec fn signed_decimal(n: int) -> Seq<char> {
    if n < 0 {
        seq!['-'] + decimal((-n) as nat)
    } else {
        decimal(n as nat)
    }
}

/// What a request is known by while it is in flight.
pub open spec fn key_of(id: IdModel) -> Seq<char> {
    match id {
        IdModel::Number(n) => "n:"@ + signed_decimal(n as int),
        IdModel::Text(text) => "s:"@ + text,
    }
}

/// Writes a number with its sign.
pub fn write_signed(n: i64) -> (r: String)
    ensures
        r@ == signed_decimal(n as int),
{
    if n < 0 {
        let magnitude: u64 = (-(n + 1)) as u64 + 1;
        let mut r = String::new();
        r.push('-');
        r.append(write_decimal(magnitude).as_str());
        assert(r@ =~= signed_decimal(n as int));
        r
    } else {
        write_decimal(n as u64)
    }
}

impl McpId {
    /// What the request is known by while it is in flight.
    pub fn key(&self) -> (r: String)
        ensures
            r@ == key_of(self@),
    {
        match self {
            McpId::Number(n) => {
                let mut r = "n:".to_owned();
                r.append(write_signed(*n).as_str());
                r
            },
            McpId::Text(text) => {
                let mut r = "s:".to_owned();
                r.append(text.as_str());
                r
            },
        }
    }

    /// A copy.
    pub fn duplicate(&self) -> (r: McpId)
        ensures
            r@ == self@,
    {
        match self {
            McpId::Number(n) => McpId::Number(*n),
            McpId::Text(text) => McpId::Text(text.clone()),
        }
    }
}

proof fn lemma_signed_decimal(a: int, b: int)
    requires
        signed_decimal(a) == signed_decimal(b),
    ensures
        a == b,
{
    let (x, y) = (signed_decimal(a), signed_decimal(b));
    if a >= 0 {
        decimal_denotes_the_number(a as nat);
        assert(is_digit(x[0]));
    }
    if b >= 0 {
        decimal_denotes_the_number(b as nat);
        assert(is_digit(y[0]));
    }
    if a < 0 {
        assert(x[0] == '-');
        decimal_denotes_the_number((-a) as nat);
        assert(x.drop_first() =~= decimal((-a) as nat));
    }
    if b < 0 {
        assert(y[0] == '-');
        decimal_denotes_the_number((-b) as nat);
        assert(y.drop_first() =~= decimal((-b) as nat));
    }
}

/// Different requests in flight are known by different keys.
pub proof fn keys_tell_requests_apart(a: IdModel, b: IdModel)
    ensures
        key_of(a) == key_of(b) ==> a == b,
{
    reveal_strlit("n:");
    reveal_strlit("s:");
    let (x, y) = (key_of(a), key_of(b));
    if x == y {
        assert(x[0] == y[0]);
        match (a, b) {
            (IdModel::Number(n), IdModel::Number(m)) => {
                assert(x.skip(2) =~= signed_decimal(n as int));
                assert(y.skip(2) =~= signed_decimal(m as int));
                lemma_signed_decimal(n as int, m as int);
            },
            (IdModel::Text(s), IdModel::Text(t)) => {
                assert(x.skip(2) =~= s);
                assert(y.skip(2) =~= t);
            },
            _ => {},
        }
    }
}

/// A request.
#[derive(Debug, PartialEq, Eq)]
pub struct McpRequest {
    /// The revision of the envelope.
    pub jsonrpc: String,
    /// The identifier; none of a notification.
    pub id: Option<McpId>,
    /// The method.
    pub method: String,
    /// The parameters.
    pub params: Json,
}

/// The view of an optional identifier.
pub open spec fn optional_id(id: Option<McpId>) -> Option<IdModel> {
    match id {
        Some(id) => Some(id@),
        None => None,
    }
}

/// An error of a response.
#[derive(Debug, PartialEq, Eq)]
pub struct McpError {
    /// Its code.
    pub code: i32,
    /// What is said of it.
    pub message: String,
    /// More about it.
    pub data: Option<Json>,
}

/// A response.
#[derive(Debug, PartialEq, Eq)]
pub struct McpResponse {
    /// The identifier of the request, if it is known.
    pub id: Option<McpId>,
    /// The result.
    pub result: Option<Json>,
    /// The error.
    pub error: Option<McpError>,
}

/// A response as a mathematical value.
pub enum ResponseModel {
    Success { id: Option<IdModel>, result: JsonModel },
    Failure { id: Option<IdModel>, code: int, message: Seq<char>, data: Option<JsonModel> },
    Malformed,
}

/// The view of an optional value.
pub open spec fn optional_json(value: Option<Json>) -> Option<JsonModel> {
    match value {
        Some(value) => Some(value@),
        None => None,
    }
}

impl View for McpResponse {
    type V = ResponseModel;

    open spec fn view(&self) -> ResponseModel {
        match (self.result, self.error) {
            (Some(result), None) => ResponseModel::Success {
                id: optional_id(self.id),
                result: result@,
            },
            (None, Some(error)) => ResponseModel::Failure {
                id: optional_id(self.id),
                code: error.code as int,
                message: error.message@,
                data: optional_json(error.data),
            },
            _ => ResponseModel::Malformed,
        }
    }
}

/// A failure without more about it.
pub open spec fn failure(id: Option<IdModel>, code: int, message: Seq<char>) -> ResponseModel {
    ResponseModel::Failure { id, code, message, data: None }
}

impl McpResponse {
    /// A success.
    pub fn success(id: McpId, result: Json) -> (r: McpResponse)
        ensures
            r@ == (ResponseModel::Success { id: Some(id@), result: result@ }),
    {
        McpResponse { id: Some(id), result: Some(result), error: None }
    }

    /// A failure.
    pub fn error(id: Option<McpId>, code: i32, message: &str, data: Option<Json>) -> (r:
        McpResponse)
        ensures
            r@ == (ResponseModel::Failure {
                id: optional_id(id),
                code: code as int,
                message: message@,
                data: optional_json(data),
            }),
    {
        McpResponse {
            id,
            result: None,
            error: Some(McpError { code, message: message.to_owned(), data }),
        }
    }
}

} // verus!
