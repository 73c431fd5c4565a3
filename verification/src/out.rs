//! Outgoing messages: responses, error responses, and their encoding into
//! JSON documents.

use vstd::prelude::*;

verus! {

use crate::json::{Json, JsonV, jv, jobj_view};
use crate::num::{dec_rep, int_rep};
use crate::rpc::{RequestId, RequestIdV, rid_v};
use crate::chars::chars_to_string;
use vstd::string::StringExecFns;

broadcast use vstd::std_specs::vec::group_vec_axioms;

/// A zero-based cursor position.
pub struct LsTypePosition {
    pub character: u32,
    pub line: u32,
}

/// A range between two positions.
pub struct LsTypeRange {
    pub start: LsTypePosition,
    pub end: LsTypePosition,
}

impl LsTypeRange {
    /// Build a range from two `(row, column)` pairs as the syntax-tree
    /// library reports them.
    pub fn range(start: (usize, usize), end: (usize, usize)) -> (r: Self)
        requires
            start.0 <= u32::MAX,
            start.1 <= u32::MAX,
            end.0 <= u32::MAX,
            end.1 <= u32::MAX,
        ensures
            r.start.line == start.0 && r.start.character == start.1,
            r.end.line == end.0 && r.end.character == end.1,
    {
        Self {
            start: LsTypePosition { line: start.0 as u32, character: start.1 as u32 },
            end: LsTypePosition { line: end.0 as u32, character: end.1 as u32 },
        }
    }
}

/// The location a definition request resolves to.
pub struct LSMessageResponseLocation {
    pub uri: String,
    pub range: LsTypeRange,
}

impl LSMessageResponseLocation {
    pub fn new(uri: String, range: LsTypeRange) -> (r: Self)
        ensures
            r.uri == uri && r.range == range,
    {
        Self { uri, range }
    }
}

/// The fixed server identity returned by `initialize`.
pub struct LSMessageResponseInitialize {
    pub name: String,
    pub version: String,
}

impl LSMessageResponseInitialize {
    /// The client capabilities are accepted but have no effect on the
    /// result.
    pub fn new(name: &str, version: &str, _capabilities: &Json) -> (r: Self)
        ensures
            r.name@ == name@ && r.version@ == version@,
    {
        Self { name: String::from_str(name), version: String::from_str(version) }
    }
}

/// The result carried by a successful response.
pub enum LSMessageResponseBody {
    Initialize(LSMessageResponseInitialize),
    Location(LSMessageResponseLocation),
    NullResult,
    Shutdown,
}

/// A successful response to a request.
pub struct LSMessageResponse {
    pub id: RequestId,
    pub result: LSMessageResponseBody,
}

impl LSMessageResponse {
    pub fn new(id: RequestId, body: LSMessageResponseBody) -> (r: Self)
        ensures
            r.id == id && r.result == body,
    {
        Self { id, result: body }
    }
}

/// The error taxonomy: a flat kind, with the underlying detail as text.
pub enum LSError {
    InternalError { message: String },
    InvalidRequest { message: String },
    MethodNotFound(String),
    ParseError(String),
}

pub open spec fn err_code_spec(e: LSError) -> int {
    match e {
        LSError::InternalError { .. } => -32603,
        LSError::InvalidRequest { .. } => -32600,
        LSError::MethodNotFound(_) => -32601,
        LSError::ParseError(_) => -32700,
    }
}

pub open spec fn err_message_spec(e: LSError) -> Seq<char> {
    match e {
        LSError::InternalError { message } => "Internal error: "@ + message@,
        LSError::InvalidRequest { message } => "Invalid request: "@ + message@,
        LSError::MethodNotFound(m) => "Method not found: '"@ + m@ + "'"@,
        LSError::ParseError(d) => "Parsing error: '"@ + d@ + "'"@,
    }
}

impl LSError {
    pub fn code(&self) -> (r: i32)
        ensures
            r as int == err_code_spec(*self),
    {
        match self {
            LSError::InternalError { .. } => -32603,
            LSError::InvalidRequest { .. } => -32600,
            LSError::MethodNotFound(_) => -32601,
            LSError::ParseError(_) => -32700,
        }
    }

    /// The error text sent to the client; the message always names the
    /// offending method or detail.
    pub fn message(&self) -> (r: String)
        ensures
            r@ == err_message_spec(*self),
    {
        match self {
            LSError::InternalError { message } => String::from_str("Internal error: ").concat(
                message.as_str(),
            ),
            LSError::InvalidRequest { message } => String::from_str("Invalid request: ").concat(
                message.as_str(),
            ),
            LSError::MethodNotFound(m) => String::from_str("Method not found: '").concat(
                m.as_str(),
            ).concat("'"),
            LSError::ParseError(d) => String::from_str("Parsing error: '").concat(
                d.as_str(),
            ).concat("'"),
        }
    }

    pub fn internal(message: String) -> (r: Self)
        ensures
            r == (LSError::InternalError { message }),
    {
        LSError::InternalError { message }
    }
}

/// The error member of an error response.
pub struct LSMessageErrorBody {
    pub code: i32,
    pub message: String,
}

impl LSMessageErrorBody {
    pub fn from(kind: LSError) -> (r: Self)
        ensures
            r.code as int == err_code_spec(kind),
            r.message@ == err_message_spec(kind),
    {
        let code = kind.code();
        let message = kind.message();
        LSMessageErrorBody { code, message }
    }
}

/// An error response to a request.
pub struct LSMessageError {
    pub id: RequestId,
    pub error: LSMessageErrorBody,
}

impl LSMessageError {
    pub fn new(id: RequestId, body: LSMessageErrorBody) -> (r: Self)
        ensures
            r.id == id && r.error == body,
    {
        Self { id, error: body }
    }
}

/// The JSON form of a request identifier.
pub open spec fn rid_jsonv(id: RequestIdV) -> JsonV {
    match id {
        RequestIdV::Text(s) => JsonV::Str(s),
        RequestIdV::Int(n) => JsonV::Num(int_rep(n)),
    }
}

pub open spec fn pos_jsonv(line: u32, character: u32) -> JsonV {
    JsonV::Obj(
        seq![
            ("character"@, JsonV::Num(dec_rep(character as nat))),
            ("line"@, JsonV::Num(dec_rep(line as nat))),
        ],
    )
}

pub open spec fn range_jsonv(r: LsTypeRange) -> JsonV {
    JsonV::Obj(
        seq![
            ("start"@, pos_jsonv(r.start.line, r.start.character)),
            ("end"@, pos_jsonv(r.end.line, r.end.character)),
        ],
    )
}

/// The result of `initialize`: the definition capability is always
/// offered, and the server identity is fixed.
pub open spec fn initialize_result_jsonv(name: Seq<char>, version: Seq<char>) -> JsonV {
    JsonV::Obj(
        seq![
            (
                "capabilities"@,
                JsonV::Obj(seq![("definitionProvider"@, JsonV::Bool(true))]),
            ),
            (
                "serverInfo"@,
                JsonV::Obj(
                    seq![("name"@, JsonV::Str(name)), ("version"@, JsonV::Str(version))],
                ),
            ),
        ],
    )
}

pub open spec fn location_result_jsonv(uri: Seq<char>, r: LsTypeRange) -> JsonV {
    JsonV::Obj(seq![("uri"@, JsonV::Str(uri)), ("range"@, range_jsonv(r))])
}

pub open spec fn result_jsonv(b: LSMessageResponseBody) -> JsonV {
    match b {
        LSMessageResponseBody::Initialize(init) => initialize_result_jsonv(
            init.name@,
            init.version@,
        ),
        LSMessageResponseBody::Location(loc) => location_result_jsonv(loc.uri@, loc.range),
        LSMessageResponseBody::NullResult => JsonV::Null,
        LSMessageResponseBody::Shutdown => JsonV::Null,
    }
}

/// The JSON document of a successful response: the triggering request's
/// id, the result, and the protocol version marker.
pub open spec fn response_jsonv(id: RequestIdV, resultv: JsonV) -> JsonV {
    JsonV::Obj(
        seq![
            ("id"@, rid_jsonv(id)),
            ("result"@, resultv),
            ("jsonrpc"@, JsonV::Str("2.0"@)),
        ],
    )
}

/// The JSON document of an error response.
pub open spec fn error_jsonv(id: RequestIdV, code: int, message: Seq<char>) -> JsonV {
    JsonV::Obj(
        seq![
            ("id"@, rid_jsonv(id)),
            (
                "error"@,
                JsonV::Obj(
                    seq![
                        ("code"@, JsonV::Num(int_rep(code))),
                        ("message"@, JsonV::Str(message)),
                    ],
                ),
            ),
            ("jsonrpc"@, JsonV::Str("2.0"@)),
        ],
    )
}

pub(crate) fn rid_to_json(id: &RequestId) -> (r: Json)
    ensures
        jv(r) == rid_jsonv(rid_v(*id)),
{
    match id {
        RequestId::Text(s) => Json::Str(s.clone()),
        RequestId::Int(n) => Json::Num(chars_to_string(&crate::num::i32_to_dec(*n))),
    }
}

pub(crate) fn pos_to_json(line: u32, character: u32) -> (r: Json)
    ensures
        jv(r) == pos_jsonv(line, character),
{
    let mut ms: Vec<(String, Json)> = Vec::new();
    ms.push(
        (
            String::from_str("character"),
            Json::Num(chars_to_string(&crate::num::u64_to_dec(character as u64))),
        ),
    );
    ms.push(
        (
            String::from_str("line"),
            Json::Num(chars_to_string(&crate::num::u64_to_dec(line as u64))),
        ),
    );
    let r = Json::Obj(ms);
    proof {
        assert(ms@.len() == 2);
        assert(jobj_view(ms@)[0] == (ms@[0].0@, jv(ms@[0].1)));
        assert(jobj_view(ms@)[1] == (ms@[1].0@, jv(ms@[1].1)));
        assert(jv(r)->Obj_0 =~~= pos_jsonv(line, character)->Obj_0);
    }
    r
}

fn range_to_json(rg: &LsTypeRange) -> (r: Json)
    ensures
        jv(r) == range_jsonv(*rg),
{
    let mut ms: Vec<(String, Json)> = Vec::new();
    ms.push((String::from_str("start"), pos_to_json(rg.start.line, rg.start.character)));
    ms.push((String::from_str("end"), pos_to_json(rg.end.line, rg.end.character)));
    let r = Json::Obj(ms);
    proof {
        assert(ms@.len() == 2);
        assert(jobj_view(ms@)[0] == (ms@[0].0@, jv(ms@[0].1)));
        assert(jobj_view(ms@)[1] == (ms@[1].0@, jv(ms@[1].1)));
        assert(jv(r)->Obj_0 =~~= range_jsonv(*rg)->Obj_0);
    }
    r
}

fn result_to_json(b: &LSMessageResponseBody) -> (r: Json)
    ensures
        jv(r) == result_jsonv(*b),
{
    match b {
        LSMessageResponseBody::Initialize(init) => {
            let mut caps: Vec<(String, Json)> = Vec::new();
            caps.push((String::from_str("definitionProvider"), Json::Bool(true)));
            let mut info: Vec<(String, Json)> = Vec::new();
            info.push((String::from_str("name"), Json::Str(init.name.clone())));
            info.push((String::from_str("version"), Json::Str(init.version.clone())));
            let mut ms: Vec<(String, Json)> = Vec::new();
            ms.push((String::from_str("capabilities"), Json::Obj(caps)));
            ms.push((String::from_str("serverInfo"), Json::Obj(info)));
            let r = Json::Obj(ms);
            proof {
                assert(ms@.len() == 2);
                assert(caps@.len() == 1);
                assert(info@.len() == 2);
                assert(jobj_view(caps@)[0] == (caps@[0].0@, jv(caps@[0].1)));
                assert(jobj_view(info@)[0] == (info@[0].0@, jv(info@[0].1)));
                assert(jobj_view(info@)[1] == (info@[1].0@, jv(info@[1].1)));
                assert(jobj_view(ms@)[0] == (ms@[0].0@, jv(ms@[0].1)));
                assert(jobj_view(ms@)[1] == (ms@[1].0@, jv(ms@[1].1)));
                assert(jv(ms@[0].1) == JsonV::Obj(jobj_view(caps@)));
                assert(jv(ms@[1].1) == JsonV::Obj(jobj_view(info@)));
                assert(jv(ms@[0].1)->Obj_0 =~~= initialize_result_jsonv(
                    init.name@,
                    init.version@,
                )->Obj_0[0].1->Obj_0);
                assert(jv(ms@[1].1)->Obj_0 =~~= initialize_result_jsonv(
                    init.name@,
                    init.version@,
                )->Obj_0[1].1->Obj_0);
                assert(jv(r)->Obj_0 =~~= result_jsonv(*b)->Obj_0);
            }
            r
        },
        LSMessageResponseBody::Location(loc) => {
            let mut ms: Vec<(String, Json)> = Vec::new();
            ms.push((String::from_str("uri"), Json::Str(loc.uri.clone())));
            ms.push((String::from_str("range"), range_to_json(&loc.range)));
            let r = Json::Obj(ms);
            proof {
                assert(ms@.len() == 2);
                assert(jobj_view(ms@)[0] == (ms@[0].0@, jv(ms@[0].1)));
                assert(jobj_view(ms@)[1] == (ms@[1].0@, jv(ms@[1].1)));
                assert(jv(r)->Obj_0 =~~= result_jsonv(*b)->Obj_0);
            }
            r
        },
        LSMessageResponseBody::NullResult => Json::Null,
        LSMessageResponseBody::Shutdown => Json::Null,
    }
}

/// Encode a successful response.
pub fn encode_response(m: &LSMessageResponse) -> (r: Json)
    ensures
        jv(r) == response_jsonv(rid_v(m.id), result_jsonv(m.result)),
{
    let mut ms: Vec<(String, Json)> = Vec::new();
    ms.push((String::from_str("id"), rid_to_json(&m.id)));
    ms.push((String::from_str("result"), result_to_json(&m.result)));
    ms.push((String::from_str("jsonrpc"), Json::Str(String::from_str("2.0"))));
    let r = Json::Obj(ms);
    proof {
        assert(ms@.len() == 3);
        assert(jobj_view(ms@)[0] == (ms@[0].0@, jv(ms@[0].1)));
        assert(jobj_view(ms@)[1] == (ms@[1].0@, jv(ms@[1].1)));
        assert(jobj_view(ms@)[2] == (ms@[2].0@, jv(ms@[2].1)));
        assert(jv(r)->Obj_0 =~~= response_jsonv(rid_v(m.id), result_jsonv(m.result))->Obj_0);
    }
    r
}

/// Encode an error response.
pub fn encode_error(m: &LSMessageError) -> (r: Json)
    ensures
        jv(r) == error_jsonv(rid_v(m.id), m.error.code as int, m.error.message@),
{
    let mut body: Vec<(String, Json)> = Vec::new();
    body.push(
        (String::from_str("code"), Json::Num(chars_to_string(&crate::num::i32_to_dec(m.error.code)))),
    );
    body.push((String::from_str("message"), Json::Str(m.error.message.clone())));
    let mut ms: Vec<(String, Json)> = Vec::new();
    ms.push((String::from_str("id"), rid_to_json(&m.id)));
    ms.push((String::from_str("error"), Json::Obj(body)));
    ms.push((String::from_str("jsonrpc"), Json::Str(String::from_str("2.0"))));
    let r = Json::Obj(ms);
    proof {
        assert(ms@.len() == 3);
        assert(body@.len() == 2);
        assert(jobj_view(body@)[0] == (body@[0].0@, jv(body@[0].1)));
        assert(jobj_view(body@)[1] == (body@[1].0@, jv(body@[1].1)));
        assert(jobj_view(ms@)[0] == (ms@[0].0@, jv(ms@[0].1)));
        assert(jobj_view(ms@)[1] == (ms@[1].0@, jv(ms@[1].1)));
        assert(jobj_view(ms@)[2] == (ms@[2].0@, jv(ms@[2].1)));
        assert(jv(ms@[1].1)->Obj_0 =~~= error_jsonv(
            rid_v(m.id),
            m.error.code as int,
            m.error.message@,
        )->Obj_0[1].1->Obj_0);
        assert(jv(r)->Obj_0 =~~= error_jsonv(rid_v(m.id), m.error.code as int, m.error.message@)->Obj_0);
    }
    r
}

} // verus!
