//! The message model: typed requests and notifications, and the explicit,
//! ordered decoding of a JSON document into one of them.
//!
//! A document is a message only if it is an object carrying a `jsonrpc`
//! string and a `method` string. The presence of `id` picks deterministically
//! between request and notification. A known method whose params do not have
//! the required shape falls back to an unknown request, which the dispatcher
//! answers with a method-not-found error.

use vstd::prelude::*;

verus! {

use crate::json::{Json, JsonV, jv, jlookup, jobj_view, jarr_view};
use crate::num::{all_digits, dec_val, int_lex_val};
use crate::chars::str_eq;

broadcast use vstd::std_specs::vec::group_vec_axioms;

/// A request identifier: a string or a 32-bit integer, echoed verbatim on
/// the response.
pub enum RequestId {
    Text(String),
    Int(i32),
}

pub enum RequestIdV {
    Text(Seq<char>),
    Int(int),
}

pub open spec fn rid_v(id: RequestId) -> RequestIdV {
    match id {
        RequestId::Text(s) => RequestIdV::Text(s@),
        RequestId::Int(n) => RequestIdV::Int(n as int),
    }
}

impl View for RequestId {
    type V = RequestIdV;

    open spec fn view(&self) -> RequestIdV {
        rid_v(*self)
    }
}

/// The body of a request.
pub enum InBody {
    Initialize { capabilities: Json },
    Shutdown,
    Definition { line: u32, character: u32, uri: String },
    Unknown { method: String, params: Option<Json> },
}

pub enum InBodyV {
    Initialize { capabilities: JsonV },
    Shutdown,
    Definition { line: u32, character: u32, uri: Seq<char> },
    Unknown { method: Seq<char>, params: Option<JsonV> },
}

pub open spec fn in_body_v(b: InBody) -> InBodyV {
    match b {
        InBody::Initialize { capabilities } => InBodyV::Initialize {
            capabilities: jv(capabilities),
        },
        InBody::Shutdown => InBodyV::Shutdown,
        InBody::Definition { line, character, uri } => InBodyV::Definition {
            line,
            character,
            uri: uri@,
        },
        InBody::Unknown { method, params } => InBodyV::Unknown {
            method: method@,
            params: match params {
                Some(p) => Some(jv(p)),
                None => None,
            },
        },
    }
}

impl View for InBody {
    type V = InBodyV;

    open spec fn view(&self) -> InBodyV {
        in_body_v(*self)
    }
}

/// One decoded incoming message.
pub enum InMessage {
    Request { id: RequestId, body: InBody },
    Initialized,
    Exit,
}

pub enum InMessageV {
    Request { id: RequestIdV, body: InBodyV },
    Initialized,
    Exit,
}

pub open spec fn in_msg_v(m: InMessage) -> InMessageV {
    match m {
        InMessage::Request { id, body } => InMessageV::Request {
            id: rid_v(id),
            body: in_body_v(body),
        },
        InMessage::Initialized => InMessageV::Initialized,
        InMessage::Exit => InMessageV::Exit,
    }
}

impl View for InMessage {
    type V = InMessageV;

    open spec fn view(&self) -> InMessageV {
        in_msg_v(*self)
    }
}

/// A decimal lexeme that denotes a `u32`: digits only, value in range.
pub open spec fn u32_lexeme(lex: Seq<char>) -> Option<u32> {
    if lex.len() >= 1 && all_digits(lex) && dec_val(lex) <= u32::MAX {
        Some(dec_val(lex) as u32)
    } else {
        None
    }
}

/// The identifier denoted by the `id` member, if it has an accepted form.
pub open spec fn rid_of(j: JsonV) -> Option<RequestIdV> {
    match j {
        JsonV::Str(s) => Some(RequestIdV::Text(s)),
        JsonV::Num(lex) => match int_lex_val(lex) {
            Some(n) => if i32::MIN <= n <= i32::MAX {
                Some(RequestIdV::Int(n))
            } else {
                None
            },
            None => None,
        },
        _ => None,
    }
}

/// Structural validity of a client capabilities value: a `workspace`
/// member must be present; a `textDocument` member, when present and not
/// null, must hold a `definition` object whose `linkSupport`, if any, is a
/// boolean or null.
pub open spec fn caps_valid(caps: JsonV) -> bool {
    match caps {
        JsonV::Obj(cm) => jlookup(cm, "workspace"@) is Some && match jlookup(
            cm,
            "textDocument"@,
        ) {
            None => true,
            Some(JsonV::Null) => true,
            Some(JsonV::Obj(tm)) => match jlookup(tm, "definition"@) {
                Some(JsonV::Obj(dm)) => match jlookup(dm, "linkSupport"@) {
                    None => true,
                    Some(JsonV::Bool(_)) => true,
                    Some(JsonV::Null) => true,
                    _ => false,
                },
                _ => false,
            },
            _ => false,
        },
        _ => false,
    }
}

/// The capabilities value of well-formed `initialize` params.
pub open spec fn initialize_caps(params: Option<JsonV>) -> Option<JsonV> {
    match params {
        Some(JsonV::Obj(pm)) => match jlookup(pm, "capabilities"@) {
            Some(caps) => if caps_valid(caps) {
                Some(caps)
            } else {
                None
            },
            None => None,
        },
        _ => None,
    }
}

/// The cursor and document of well-formed `textDocument/definition` params.
pub open spec fn defn_params(params: Option<JsonV>) -> Option<(u32, u32, Seq<char>)> {
    match params {
        Some(JsonV::Obj(pm)) => {
            let pos = jlookup(pm, "position"@);
            let td = jlookup(pm, "textDocument"@);
            match (pos, td) {
                (Some(JsonV::Obj(posm)), Some(JsonV::Obj(tdm))) => {
                    let line = jlookup(posm, "line"@);
                    let ch = jlookup(posm, "character"@);
                    let uri = jlookup(tdm, "uri"@);
                    match (line, ch, uri) {
                        (
                            Some(JsonV::Num(ll)),
                            Some(JsonV::Num(cl)),
                            Some(JsonV::Str(u)),
                        ) => match (u32_lexeme(ll), u32_lexeme(cl)) {
                            (Some(l), Some(c)) => Some((l, c, u)),
                            _ => None,
                        },
                        _ => None,
                    }
                },
                _ => None,
            }
        },
        _ => None,
    }
}

/// The body a request with this method and params decodes to; params that
/// do not fit a known method fall back to an unknown request.
pub open spec fn body_of(method: Seq<char>, params: Option<JsonV>) -> InBodyV {
    if method == "initialize"@ {
        match initialize_caps(params) {
            Some(caps) => InBodyV::Initialize { capabilities: caps },
            None => InBodyV::Unknown { method, params },
        }
    } else if method == "shutdown"@ {
        if params is None || params == Some(JsonV::Null) {
            InBodyV::Shutdown
        } else {
            InBodyV::Unknown { method, params }
        }
    } else if method == "textDocument/definition"@ {
        match defn_params(params) {
            Some((line, character, uri)) => InBodyV::Definition { line, character, uri },
            None => InBodyV::Unknown { method, params },
        }
    } else {
        InBodyV::Unknown { method, params }
    }
}

/// The notification a method and params decode to, if any.
pub open spec fn notif_of(method: Seq<char>, params: Option<JsonV>) -> Option<InMessageV> {
    if method == "initialized"@ && (params is None || params == Some(JsonV::Null)
        || params matches Some(JsonV::Obj(_))) {
        Some(InMessageV::Initialized)
    } else if method == "exit"@ && (params is None || params == Some(JsonV::Null)) {
        Some(InMessageV::Exit)
    } else {
        None
    }
}

/// The message a JSON document decodes to, or `None` when its shape matches
/// neither a request nor a notification.
pub open spec fn decode_msg(j: JsonV) -> Option<InMessageV> {
    match j {
        JsonV::Obj(ms) => {
            if !(jlookup(ms, "jsonrpc"@) matches Some(JsonV::Str(_))) {
                None
            } else {
                match jlookup(ms, "method"@) {
                    Some(JsonV::Str(method)) => {
                        let params = jlookup(ms, "params"@);
                        match jlookup(ms, "id"@) {
                            Some(idj) => match rid_of(idj) {
                                Some(id) => Some(
                                    InMessageV::Request { id, body: body_of(method, params) },
                                ),
                                None => None,
                            },
                            None => notif_of(method, params),
                        }
                    },
                    _ => None,
                }
            }
        },
        _ => None,
    }
}

/// Find a key among an object's members; the first occurrence wins.
pub fn obj_get<'a>(members: &'a Vec<(String, Json)>, key: &str) -> (r: Option<&'a Json>)
    ensures
        match r {
            Some(j) => jlookup(jobj_view(members@), key@) == Some(jv(*j)),
            None => jlookup(jobj_view(members@), key@) is None,
        },
{
    let mut i: usize = 0;
    proof {
        assert(jobj_view(members@).skip(0) =~= jobj_view(members@));
    }
    while i < members.len()
        invariant
            i <= members@.len(),
            jlookup(jobj_view(members@), key@) == jlookup(
                jobj_view(members@).skip(i as int),
                key@,
            ),
        decreases members@.len() - i,
    {
        if str_eq(members[i].0.as_str(), key) {
            proof {
                assert(jobj_view(members@).skip(i as int)[0] == (
                    members@[i as int].0@,
                    jv(members@[i as int].1),
                ));
            }
            return Some(&members[i].1);
        }
        i += 1;
        proof {
            assert(jobj_view(members@).skip(i - 1).skip(1) =~= jobj_view(members@).skip(
                i as int,
            ));
            assert(jobj_view(members@).skip(i - 1)[0] == (
                members@[i - 1].0@,
                jv(members@[i - 1].1),
            ));
        }
    }
    proof {
        assert(jobj_view(members@).skip(members@.len() as int) =~= Seq::<
            (Seq<char>, JsonV),
        >::empty());
    }
    None
}

pub open spec fn opt_jv(p: Option<&Json>) -> Option<JsonV> {
    match p {
        Some(j) => Some(jv(*j)),
        None => None,
    }
}

/// Deep copy of a document.
pub fn json_clone(j: &Json) -> (r: Json)
    ensures
        jv(r) == jv(*j),
    decreases *j, 0int,
{
    match j {
        Json::Null => Json::Null,
        Json::Bool(b) => Json::Bool(*b),
        Json::Num(s) => Json::Num(s.clone()),
        Json::Str(s) => Json::Str(s.clone()),
        Json::Arr(items) => {
            let r = Json::Arr(clone_items(items));
            proof {
                assert(jv(r) == jv(*j));
            }
            r
        },
        Json::Obj(members) => {
            let r = Json::Obj(clone_members(members));
            proof {
                assert(jv(r) == jv(*j));
            }
            r
        },
    }
}

fn clone_items(items: &Vec<Json>) -> (r: Vec<Json>)
    ensures
        jarr_view(r@) == jarr_view(items@),
    decreases *items, 1int,
{
    let mut r: Vec<Json> = Vec::new();
    let mut i: usize = 0;
    while i < items.len()
        invariant
            i <= items@.len(),
            r@.len() == i,
            forall|k: int| 0 <= k < i ==> jv(#[trigger] r@[k]) == jv(items@[k]),
        decreases items@.len() - i,
    {
        r.push(json_clone(&items[i]));
        i += 1;
    }
    proof {
        assert(jarr_view(r@) =~= jarr_view(items@));
    }
    r
}

fn clone_members(members: &Vec<(String, Json)>) -> (r: Vec<(String, Json)>)
    ensures
        jobj_view(r@) == jobj_view(members@),
    decreases *members, 1int,
{
    let mut r: Vec<(String, Json)> = Vec::new();
    let mut i: usize = 0;
    while i < members.len()
        invariant
            i <= members@.len(),
            r@.len() == i,
            forall|k: int|
                0 <= k < i ==> (#[trigger] r@[k]).0@ == members@[k].0@ && jv(r@[k].1) == jv(
                    members@[k].1,
                ),
        decreases members@.len() - i,
    {
        let key = members[i].0.clone();
        let val = json_clone(&members[i].1);
        r.push((key, val));
        i += 1;
    }
    proof {
        assert(jobj_view(r@) =~= jobj_view(members@));
    }
    r
}

fn clone_opt_params(params: Option<&Json>) -> (r: Option<Json>)
    ensures
        match r {
            Some(p) => opt_jv(params) == Some(jv(p)),
            None => opt_jv(params) is None,
        },
{
    match params {
        Some(p) => Some(json_clone(p)),
        None => None,
    }
}

/// Structural validity of a capabilities value.
fn caps_valid_x(caps: &Json) -> (r: bool)
    ensures
        r == caps_valid(jv(*caps)),
{
    match caps {
        Json::Obj(cm) => {
            let ws = obj_get(cm, "workspace");
            match ws {
                Some(_) => {},
                None => {
                    return false;
                },
            }
            match obj_get(cm, "textDocument") {
                None => true,
                Some(Json::Null) => true,
                Some(Json::Obj(tm)) => match obj_get(tm, "definition") {
                    Some(Json::Obj(dm)) => match obj_get(dm, "linkSupport") {
                        None => true,
                        Some(Json::Bool(_)) => true,
                        Some(Json::Null) => true,
                        Some(_) => false,
                    },
                    _ => false,
                },
                Some(_) => false,
            }
        },
        _ => false,
    }
}

/// The capabilities value of well-formed `initialize` params, copied out.
fn caps_from(params: Option<&Json>) -> (r: Option<Json>)
    ensures
        match r {
            Some(caps) => initialize_caps(opt_jv(params)) == Some(jv(caps)),
            None => initialize_caps(opt_jv(params)) is None,
        },
{
    match params {
        Some(Json::Obj(pm)) => match obj_get(pm, "capabilities") {
            Some(caps) => {
                if caps_valid_x(caps) {
                    Some(json_clone(caps))
                } else {
                    None
                }
            },
            None => None,
        },
        _ => None,
    }
}

/// The cursor and document of well-formed definition params, copied out.
fn defn_from(params: Option<&Json>) -> (r: Option<(u32, u32, String)>)
    ensures
        match r {
            Some(p) => defn_params(opt_jv(params)) == Some((p.0, p.1, p.2@)),
            None => defn_params(opt_jv(params)) is None,
        },
{
    match params {
        Some(Json::Obj(pm)) => {
            let pos = obj_get(pm, "position");
            let td = obj_get(pm, "textDocument");
            match (pos, td) {
                (Some(Json::Obj(posm)), Some(Json::Obj(tdm))) => {
                    let line = obj_get(posm, "line");
                    let ch = obj_get(posm, "character");
                    let uri = obj_get(tdm, "uri");
                    match (line, ch, uri) {
                        (Some(Json::Num(ll)), Some(Json::Num(cl)), Some(Json::Str(u))) => {
                            let lc = crate::chars::str_chars(ll.as_str());
                            let cc = crate::chars::str_chars(cl.as_str());
                            let lv = crate::num::parse_u32_dec(&lc);
                            let cv = crate::num::parse_u32_dec(&cc);
                            match (lv, cv) {
                                (Some(l), Some(c)) => Some((l, c, u.clone())),
                                _ => None,
                            }
                        },
                        _ => None,
                    }
                },
                _ => None,
            }
        },
        _ => None,
    }
}

fn params_unit_like(params: Option<&Json>) -> (r: bool)
    ensures
        r == (opt_jv(params) is None || opt_jv(params) == Some(JsonV::Null)),
{
    match params {
        None => true,
        Some(Json::Null) => true,
        Some(_) => false,
    }
}

/// The body of a request with this method and params.
fn decode_body(method: &String, params: Option<&Json>) -> (b: InBody)
    ensures
        in_body_v(b) == body_of(method@, opt_jv(params)),
{
    if str_eq(method.as_str(), "initialize") {
        match caps_from(params) {
            Some(caps) => InBody::Initialize { capabilities: caps },
            None => InBody::Unknown { method: method.clone(), params: clone_opt_params(params) },
        }
    } else if str_eq(method.as_str(), "shutdown") {
        if params_unit_like(params) {
            InBody::Shutdown
        } else {
            InBody::Unknown { method: method.clone(), params: clone_opt_params(params) }
        }
    } else if str_eq(method.as_str(), "textDocument/definition") {
        match defn_from(params) {
            Some((line, character, uri)) => InBody::Definition { line, character, uri },
            None => InBody::Unknown { method: method.clone(), params: clone_opt_params(params) },
        }
    } else {
        InBody::Unknown { method: method.clone(), params: clone_opt_params(params) }
    }
}

/// Decode a JSON document into a message, by the explicit, ordered rules
/// of `decode_msg`.
pub fn decode_in(j: &Json) -> (r: Option<InMessage>)
    ensures
        match r {
            Some(m) => decode_msg(jv(*j)) == Some(in_msg_v(m)),
            None => decode_msg(jv(*j)) is None,
        },
{
    let members = match j {
        Json::Obj(ms) => ms,
        _ => {
            return None;
        },
    };
    match obj_get(members, "jsonrpc") {
        Some(Json::Str(_)) => {},
        _ => {
            return None;
        },
    }
    let method_s = match obj_get(members, "method") {
        Some(Json::Str(s)) => s,
        _ => {
            return None;
        },
    };
    let params = obj_get(members, "params");
    match obj_get(members, "id") {
        Some(idj) => {
            let id: RequestId = match idj {
                Json::Str(s) => RequestId::Text(s.clone()),
                Json::Num(lex) => {
                    let lc = crate::chars::str_chars(lex.as_str());
                    match crate::num::parse_i32_dec(&lc) {
                        Some(n) => RequestId::Int(n),
                        None => {
                            return None;
                        },
                    }
                },
                _ => {
                    return None;
                },
            };
            let body = decode_body(method_s, params);
            Some(InMessage::Request { id, body })
        },
        None => {
            if str_eq(method_s.as_str(), "initialized") {
                let ok = match params {
                    None => true,
                    Some(Json::Null) => true,
                    Some(Json::Obj(_)) => true,
                    Some(_) => false,
                };
                if ok {
                    Some(InMessage::Initialized)
                } else {
                    None
                }
            } else if str_eq(method_s.as_str(), "exit") {
                if params_unit_like(params) {
                    Some(InMessage::Exit)
                } else {
                    None
                }
            } else {
                None
            }
        },
    }
}

/// The members a request body contributes to its message: the method
/// name, and the params the method takes.
pub open spec fn body_members(b: InBodyV) -> Seq<(Seq<char>, JsonV)> {
    match b {
        InBodyV::Initialize { capabilities } => seq![
            ("method"@, JsonV::Str("initialize"@)),
            ("params"@, JsonV::Obj(seq![("capabilities"@, capabilities)])),
        ],
        InBodyV::Shutdown => seq![("method"@, JsonV::Str("shutdown"@))],
        InBodyV::Definition { line, character, uri } => seq![
            ("method"@, JsonV::Str("textDocument/definition"@)),
            (
                "params"@,
                JsonV::Obj(
                    seq![
                        (
                            "position"@,
                            JsonV::Obj(
                                seq![
                                    ("character"@, JsonV::Num(crate::num::dec_rep(character as nat))),
                                    ("line"@, JsonV::Num(crate::num::dec_rep(line as nat))),
                                ],
                            ),
                        ),
                        ("textDocument"@, JsonV::Obj(seq![("uri"@, JsonV::Str(uri))])),
                    ],
                ),
            ),
        ],
        InBodyV::Unknown { method, params } => seq![("method"@, JsonV::Str(method))] + (
        match params {
            Some(p) => seq![("params"@, p)],
            None => Seq::empty(),
        }),
    }
}

/// The JSON document that carries a message on the wire.
pub open spec fn encode_in_msg(mv: InMessageV) -> JsonV {
    match mv {
        InMessageV::Request { id, body } => JsonV::Obj(
            seq![("id"@, crate::out::rid_jsonv(id))] + body_members(body) + seq![
                ("jsonrpc"@, JsonV::Str("2.0"@)),
            ],
        ),
        InMessageV::Initialized => JsonV::Obj(
            seq![
                ("method"@, JsonV::Str("initialized"@)),
                ("params"@, JsonV::Obj(Seq::empty())),
                ("jsonrpc"@, JsonV::Str("2.0"@)),
            ],
        ),
        InMessageV::Exit => JsonV::Obj(
            seq![
                ("method"@, JsonV::Str("exit"@)),
                ("jsonrpc"@, JsonV::Str("2.0"@)),
            ],
        ),
    }
}

/// A request identifier the wire can carry back.
pub open spec fn wf_rid(id: RequestIdV) -> bool {
    match id {
        RequestIdV::Text(_) => true,
        RequestIdV::Int(n) => i32::MIN <= n <= i32::MAX,
    }
}

/// A message whose encoding decodes to itself: its id fits the wire, an
/// `initialize` carries structurally valid capabilities, and an unknown
/// request does not borrow a known method's name.
pub open spec fn wf_in_msg(mv: InMessageV) -> bool {
    match mv {
        InMessageV::Request { id, body } => wf_rid(id) && match body {
            InBodyV::Initialize { capabilities } => caps_valid(capabilities),
            InBodyV::Shutdown => true,
            InBodyV::Definition { .. } => true,
            InBodyV::Unknown { method, params } => method != "initialize"@ && method
                != "shutdown"@ && method != "textDocument/definition"@,
        },
        InMessageV::Initialized => true,
        InMessageV::Exit => true,
    }
}

proof fn lemma_reveal_keys()
    ensures
        "id"@ != "jsonrpc"@ && "id"@ != "method"@ && "id"@ != "params"@,
        "method"@ != "jsonrpc"@ && "method"@ != "params"@,
        "params"@ != "jsonrpc"@,
{
    reveal_strlit("id");
    reveal_strlit("method");
    reveal_strlit("params");
    reveal_strlit("jsonrpc");
    assert("id"@.len() == 2 && "method"@.len() == 6 && "params"@.len() == 6 && "jsonrpc"@.len()
        == 7);
    assert("method"@[0] == 'm' && "params"@[0] == 'p');
}

/// The four lookups on a message object of the shape id, method, params,
/// jsonrpc.
proof fn lemma_lookups_request(idj: JsonV, mj: JsonV, pj: Option<JsonV>)
    ensures
        ({
            let ms = match pj {
                Some(p) => seq![("id"@, idj), ("method"@, mj), ("params"@, p), (
                    "jsonrpc"@,
                    JsonV::Str("2.0"@),
                )],
                None => seq![("id"@, idj), ("method"@, mj), ("jsonrpc"@, JsonV::Str("2.0"@))],
            };
            &&& jlookup(ms, "id"@) == Some(idj)
            &&& jlookup(ms, "method"@) == Some(mj)
            &&& jlookup(ms, "params"@) == pj
            &&& jlookup(ms, "jsonrpc"@) == Some(JsonV::Str("2.0"@))
        }),
{
    lemma_reveal_keys();
    reveal_with_fuel(jlookup, 6);
    match pj {
        Some(p) => {
            let ms = seq![("id"@, idj), ("method"@, mj), ("params"@, p), (
                "jsonrpc"@,
                JsonV::Str("2.0"@),
            )];
            let m1 = seq![("method"@, mj), ("params"@, p), ("jsonrpc"@, JsonV::Str("2.0"@))];
            let m2 = seq![("params"@, p), ("jsonrpc"@, JsonV::Str("2.0"@))];
            let m3 = seq![("jsonrpc"@, JsonV::Str("2.0"@))];
            assert(ms.skip(1) =~= m1);
            assert(m1.skip(1) =~= m2);
            assert(m2.skip(1) =~= m3);
            assert(m3.skip(1) =~= Seq::<(Seq<char>, JsonV)>::empty());
        },
        None => {
            let ms = seq![("id"@, idj), ("method"@, mj), ("jsonrpc"@, JsonV::Str("2.0"@))];
            let m1 = seq![("method"@, mj), ("jsonrpc"@, JsonV::Str("2.0"@))];
            let m2 = seq![("jsonrpc"@, JsonV::Str("2.0"@))];
            assert(ms.skip(1) =~= m1);
            assert(m1.skip(1) =~= m2);
            assert(m2.skip(1) =~= Seq::<(Seq<char>, JsonV)>::empty());
        },
    }
}

/// The lookups on a notification object of the shape method, params,
/// jsonrpc.
proof fn lemma_lookups_notification(mj: JsonV, pj: Option<JsonV>)
    ensures
        ({
            let ms = match pj {
                Some(p) => seq![("method"@, mj), ("params"@, p), (
                    "jsonrpc"@,
                    JsonV::Str("2.0"@),
                )],
                None => seq![("method"@, mj), ("jsonrpc"@, JsonV::Str("2.0"@))],
            };
            &&& jlookup(ms, "id"@) is None
            &&& jlookup(ms, "method"@) == Some(mj)
            &&& jlookup(ms, "params"@) == pj
            &&& jlookup(ms, "jsonrpc"@) == Some(JsonV::Str("2.0"@))
        }),
{
    lemma_reveal_keys();
    reveal_with_fuel(jlookup, 6);
    match pj {
        Some(p) => {
            let ms = seq![("method"@, mj), ("params"@, p), ("jsonrpc"@, JsonV::Str("2.0"@))];
            let m1 = seq![("params"@, p), ("jsonrpc"@, JsonV::Str("2.0"@))];
            let m2 = seq![("jsonrpc"@, JsonV::Str("2.0"@))];
            assert(ms.skip(1) =~= m1);
            assert(m1.skip(1) =~= m2);
            assert(m2.skip(1) =~= Seq::<(Seq<char>, JsonV)>::empty());
        },
        None => {
            let ms = seq![("method"@, mj), ("jsonrpc"@, JsonV::Str("2.0"@))];
            let m1 = seq![("jsonrpc"@, JsonV::Str("2.0"@))];
            assert(ms.skip(1) =~= m1);
            assert(m1.skip(1) =~= Seq::<(Seq<char>, JsonV)>::empty());
        },
    }
}

proof fn lemma_single_lookup(key: Seq<char>, v: JsonV)
    ensures
        jlookup(seq![(key, v)], key) == Some(v),
{
}

/// Round trip: the explicit, ordered decoding inverts the wire encoding.
/// Writing any well-formed request or notification and reading it back
/// yields the same identifier and the same body.
pub proof fn lemma_message_round_trip(mv: InMessageV)
    requires
        wf_in_msg(mv),
    ensures
        decode_msg(encode_in_msg(mv)) == Some(mv),
{
    lemma_reveal_keys();
    reveal_with_fuel(jlookup, 6);
    reveal_strlit("initialize");
    reveal_strlit("shutdown");
    reveal_strlit("textDocument/definition");
    reveal_strlit("initialized");
    reveal_strlit("exit");
    reveal_strlit("2.0");
    match mv {
        InMessageV::Request { id, body } => {
            let idj = crate::out::rid_jsonv(id);
            match id {
                RequestIdV::Text(_) => {},
                RequestIdV::Int(n) => {
                    crate::num::lemma_int_lex_roundtrip(n);
                },
            }
            assert(rid_of(idj) == Some(id));
            match body {
                InBodyV::Initialize { capabilities } => {
                    let pj = JsonV::Obj(seq![("capabilities"@, capabilities)]);
                    let ms = seq![("id"@, idj)] + body_members(body) + seq![
                        ("jsonrpc"@, JsonV::Str("2.0"@)),
                    ];
                    assert(ms =~= seq![("id"@, idj), ("method"@, JsonV::Str("initialize"@)), (
                        "params"@,
                        pj,
                    ), ("jsonrpc"@, JsonV::Str("2.0"@))]);
                    lemma_lookups_request(idj, JsonV::Str("initialize"@), Some(pj));
                    lemma_single_lookup("capabilities"@, capabilities);
                    assert(initialize_caps(Some(pj)) == Some(capabilities));
                    assert(body_of("initialize"@, Some(pj)) == body);
                },
                InBodyV::Shutdown => {
                    let ms = seq![("id"@, idj)] + body_members(body) + seq![
                        ("jsonrpc"@, JsonV::Str("2.0"@)),
                    ];
                    assert(ms =~= seq![("id"@, idj), ("method"@, JsonV::Str("shutdown"@)), (
                        "jsonrpc"@,
                        JsonV::Str("2.0"@),
                    )]);
                    lemma_lookups_request(idj, JsonV::Str("shutdown"@), None);
                    assert("shutdown"@ != "initialize"@) by {
                        assert("shutdown"@.len() == 8 && "initialize"@.len() == 10);
                    }
                    assert(body_of("shutdown"@, None) == body);
                },
                InBodyV::Definition { line, character, uri } => {
                    let posj = JsonV::Obj(
                        seq![
                            ("character"@, JsonV::Num(crate::num::dec_rep(character as nat))),
                            ("line"@, JsonV::Num(crate::num::dec_rep(line as nat))),
                        ],
                    );
                    let tdj = JsonV::Obj(seq![("uri"@, JsonV::Str(uri))]);
                    let pj = JsonV::Obj(seq![("position"@, posj), ("textDocument"@, tdj)]);
                    let ms = seq![("id"@, idj)] + body_members(body) + seq![
                        ("jsonrpc"@, JsonV::Str("2.0"@)),
                    ];
                    assert(ms =~= seq![("id"@, idj), (
                        "method"@,
                        JsonV::Str("textDocument/definition"@),
                    ), ("params"@, pj), ("jsonrpc"@, JsonV::Str("2.0"@))]);
                    lemma_lookups_request(idj, JsonV::Str("textDocument/definition"@), Some(pj));
                    assert("textDocument/definition"@ != "initialize"@
                        && "textDocument/definition"@ != "shutdown"@) by {
                        assert("textDocument/definition"@.len() == 23 && "initialize"@.len()
                            == 10 && "shutdown"@.len() == 8);
                    }
                    reveal_strlit("position");
                    reveal_strlit("textDocument");
                    reveal_strlit("uri");
                    reveal_strlit("line");
                    reveal_strlit("character");
                    assert("position"@ != "textDocument"@) by {
                        assert("position"@.len() == 8 && "textDocument"@.len() == 12);
                    }
                    let pm = seq![("position"@, posj), ("textDocument"@, tdj)];
                    assert(pm.skip(1) =~= seq![("textDocument"@, tdj)]);
                    assert(jlookup(pm, "position"@) == Some(posj));
                    assert(jlookup(pm, "textDocument"@) == Some(tdj));
                    let posm = seq![
                        ("character"@, JsonV::Num(crate::num::dec_rep(character as nat))),
                        ("line"@, JsonV::Num(crate::num::dec_rep(line as nat))),
                    ];
                    assert("character"@ != "line"@) by {
                        assert("character"@.len() == 9 && "line"@.len() == 4);
                    }
                    assert(posm.skip(1) =~= seq![
                        ("line"@, JsonV::Num(crate::num::dec_rep(line as nat))),
                    ]);
                    assert(jlookup(posm, "character"@) == Some(
                        JsonV::Num(crate::num::dec_rep(character as nat)),
                    ));
                    assert(jlookup(posm, "line"@) == Some(
                        JsonV::Num(crate::num::dec_rep(line as nat)),
                    ));
                    lemma_single_lookup("uri"@, JsonV::Str(uri));
                    crate::num::lemma_dec_rep_digits(line as nat);
                    crate::num::lemma_dec_roundtrip(line as nat);
                    crate::num::lemma_dec_rep_digits(character as nat);
                    crate::num::lemma_dec_roundtrip(character as nat);
                    assert(u32_lexeme(crate::num::dec_rep(line as nat)) == Some(line));
                    assert(u32_lexeme(crate::num::dec_rep(character as nat)) == Some(character));
                    assert(defn_params(Some(pj)) == Some((line, character, uri)));
                    assert(body_of("textDocument/definition"@, Some(pj)) == body);
                },
                InBodyV::Unknown { method, params } => {
                    let ms = seq![("id"@, idj)] + body_members(body) + seq![
                        ("jsonrpc"@, JsonV::Str("2.0"@)),
                    ];
                    match params {
                        Some(p) => {
                            assert(ms =~= seq![("id"@, idj), ("method"@, JsonV::Str(method)), (
                                "params"@,
                                p,
                            ), ("jsonrpc"@, JsonV::Str("2.0"@))]);
                            lemma_lookups_request(idj, JsonV::Str(method), Some(p));
                        },
                        None => {
                            assert(ms =~= seq![("id"@, idj), ("method"@, JsonV::Str(method)), (
                                "jsonrpc"@,
                                JsonV::Str("2.0"@),
                            )]);
                            lemma_lookups_request(idj, JsonV::Str(method), None);
                        },
                    }
                    assert(body_of(method, params) == body);
                },
            }
        },
        InMessageV::Initialized => {
            lemma_lookups_notification(
                JsonV::Str("initialized"@),
                Some(JsonV::Obj(Seq::empty())),
            );
            assert(notif_of("initialized"@, Some(JsonV::Obj(Seq::empty()))) == Some(
                InMessageV::Initialized,
            ));
        },
        InMessageV::Exit => {
            lemma_lookups_notification(JsonV::Str("exit"@), None);
            assert("exit"@ != "initialized"@) by {
                assert("exit"@.len() == 4 && "initialized"@.len() == 11);
            }
            assert(notif_of("exit"@, None) == Some(InMessageV::Exit));
        },
    }
}

/// Encode a message for the wire; `decode_msg` inverts this for every
/// well-formed message, as `lemma_message_round_trip` shows.
pub fn encode_in(m: &InMessage) -> (r: Json)
    ensures
        jv(r) == encode_in_msg(m@),
{
    match m {
        InMessage::Exit => {
            let mut ms: Vec<(String, Json)> = Vec::new();
            ms.push((String::from_str("method"), Json::Str(String::from_str("exit"))));
            ms.push((String::from_str("jsonrpc"), Json::Str(String::from_str("2.0"))));
            let r = Json::Obj(ms);
            proof {
                assert(ms@.len() == 2);
                assert(jobj_view(ms@)[0] == (ms@[0].0@, jv(ms@[0].1)));
                assert(jobj_view(ms@)[1] == (ms@[1].0@, jv(ms@[1].1)));
                assert(jv(r)->Obj_0 =~~= encode_in_msg(m@)->Obj_0);
            }
            r
        },
        InMessage::Initialized => {
            let mut ms: Vec<(String, Json)> = Vec::new();
            ms.push((String::from_str("method"), Json::Str(String::from_str("initialized"))));
            ms.push((String::from_str("params"), Json::Obj(Vec::new())));
            ms.push((String::from_str("jsonrpc"), Json::Str(String::from_str("2.0"))));
            let r = Json::Obj(ms);
            proof {
                assert(ms@.len() == 3);
                assert(jobj_view(ms@)[0] == (ms@[0].0@, jv(ms@[0].1)));
                assert(jobj_view(ms@)[1] == (ms@[1].0@, jv(ms@[1].1)));
                assert(jobj_view(ms@)[2] == (ms@[2].0@, jv(ms@[2].1)));
                assert(jv(ms@[1].1)->Obj_0 =~~= Seq::<(Seq<char>, JsonV)>::empty());
                assert(jv(r)->Obj_0 =~~= encode_in_msg(m@)->Obj_0);
            }
            r
        },
        InMessage::Request { id, body } => match body {
            InBody::Initialize { capabilities } => {
                let mut pm: Vec<(String, Json)> = Vec::new();
                pm.push((String::from_str("capabilities"), json_clone(capabilities)));
                let mut ms: Vec<(String, Json)> = Vec::new();
                ms.push((String::from_str("id"), crate::out::rid_to_json(id)));
                ms.push(
                    (String::from_str("method"), Json::Str(String::from_str("initialize"))),
                );
                ms.push((String::from_str("params"), Json::Obj(pm)));
                ms.push((String::from_str("jsonrpc"), Json::Str(String::from_str("2.0"))));
                let r = Json::Obj(ms);
                proof {
                    assert(ms@.len() == 4);
                    assert(jobj_view(ms@)[0] == (ms@[0].0@, jv(ms@[0].1)));
                    assert(jobj_view(ms@)[1] == (ms@[1].0@, jv(ms@[1].1)));
                    assert(jobj_view(ms@)[2] == (ms@[2].0@, jv(ms@[2].1)));
                    assert(jobj_view(ms@)[3] == (ms@[3].0@, jv(ms@[3].1)));
                    let pmv = jv(ms@[2].1)->Obj_0;
                    assert(pmv[0] == (ms@[2].1->Obj_0@[0].0@, jv(ms@[2].1->Obj_0@[0].1)));
                    assert(pmv =~~= seq![("capabilities"@, jv(*capabilities))]);
                    assert(jv(r)->Obj_0 =~~= encode_in_msg(m@)->Obj_0);
                }
                r
            },
            InBody::Shutdown => {
                let mut ms: Vec<(String, Json)> = Vec::new();
                ms.push((String::from_str("id"), crate::out::rid_to_json(id)));
                ms.push((String::from_str("method"), Json::Str(String::from_str("shutdown"))));
                ms.push((String::from_str("jsonrpc"), Json::Str(String::from_str("2.0"))));
                let r = Json::Obj(ms);
                proof {
                    assert(ms@.len() == 3);
                    assert(jobj_view(ms@)[0] == (ms@[0].0@, jv(ms@[0].1)));
                    assert(jobj_view(ms@)[1] == (ms@[1].0@, jv(ms@[1].1)));
                    assert(jobj_view(ms@)[2] == (ms@[2].0@, jv(ms@[2].1)));
                    assert(jv(r)->Obj_0 =~~= encode_in_msg(m@)->Obj_0);
                }
                r
            },
            InBody::Definition { line, character, uri } => {
                let mut tdm: Vec<(String, Json)> = Vec::new();
                tdm.push((String::from_str("uri"), Json::Str(uri.clone())));
                let mut pm: Vec<(String, Json)> = Vec::new();
                pm.push(
                    (String::from_str("position"), crate::out::pos_to_json(*line, *character)),
                );
                let ghost tdmv = tdm@;
                pm.push((String::from_str("textDocument"), Json::Obj(tdm)));
                let mut ms: Vec<(String, Json)> = Vec::new();
                ms.push((String::from_str("id"), crate::out::rid_to_json(id)));
                ms.push(
                    (
                        String::from_str("method"),
                        Json::Str(String::from_str("textDocument/definition")),
                    ),
                );
                let ghost pmv0 = pm@;
                ms.push((String::from_str("params"), Json::Obj(pm)));
                ms.push((String::from_str("jsonrpc"), Json::Str(String::from_str("2.0"))));
                let r = Json::Obj(ms);
                proof {
                    assert(ms@.len() == 4);
                    assert(jobj_view(ms@)[0] == (ms@[0].0@, jv(ms@[0].1)));
                    assert(jobj_view(ms@)[1] == (ms@[1].0@, jv(ms@[1].1)));
                    assert(jobj_view(ms@)[2] == (ms@[2].0@, jv(ms@[2].1)));
                    assert(jobj_view(ms@)[3] == (ms@[3].0@, jv(ms@[3].1)));
                    assert(jobj_view(tdmv)[0] == (tdmv[0].0@, jv(tdmv[0].1)));
                    assert(jobj_view(tdmv) =~~= seq![("uri"@, JsonV::Str(uri@))]);
                    assert(pmv0.len() == 2);
                    assert(jobj_view(pmv0)[0] == (pmv0[0].0@, jv(pmv0[0].1)));
                    assert(jobj_view(pmv0)[1] == (pmv0[1].0@, jv(pmv0[1].1)));
                    assert(jv(ms@[2].1)->Obj_0 =~~= body_members(in_body_v(*body))[1].1->Obj_0);
                    assert(jv(r)->Obj_0 =~~= encode_in_msg(m@)->Obj_0);
                }
                r
            },
            InBody::Unknown { method, params } => {
                let mut ms: Vec<(String, Json)> = Vec::new();
                ms.push((String::from_str("id"), crate::out::rid_to_json(id)));
                ms.push((String::from_str("method"), Json::Str(method.clone())));
                match params {
                    Some(p) => {
                        ms.push((String::from_str("params"), json_clone(p)));
                        ms.push(
                            (String::from_str("jsonrpc"), Json::Str(String::from_str("2.0"))),
                        );
                        let r = Json::Obj(ms);
                        proof {
                            assert(ms@.len() == 4);
                            assert(jobj_view(ms@)[0] == (ms@[0].0@, jv(ms@[0].1)));
                            assert(jobj_view(ms@)[1] == (ms@[1].0@, jv(ms@[1].1)));
                            assert(jobj_view(ms@)[2] == (ms@[2].0@, jv(ms@[2].1)));
                            assert(jobj_view(ms@)[3] == (ms@[3].0@, jv(ms@[3].1)));
                            assert(jv(r)->Obj_0 =~~= encode_in_msg(m@)->Obj_0);
                        }
                        r
                    },
                    None => {
                        ms.push(
                            (String::from_str("jsonrpc"), Json::Str(String::from_str("2.0"))),
                        );
                        let r = Json::Obj(ms);
                        proof {
                            assert(ms@.len() == 3);
                            assert(jobj_view(ms@)[0] == (ms@[0].0@, jv(ms@[0].1)));
                            assert(jobj_view(ms@)[1] == (ms@[1].0@, jv(ms@[1].1)));
                            assert(jobj_view(ms@)[2] == (ms@[2].0@, jv(ms@[2].1)));
                            assert(jv(r)->Obj_0 =~~= encode_in_msg(m@)->Obj_0);
                        }
                        r
                    },
                }
            },
        },
    }
}

} // verus!
