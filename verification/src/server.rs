//! The dispatcher: one decoded body at a time is routed by method, the
//! consecutive-failure fail-safe is kept, and the `exit` notification
//! ends the session.
//!
//! The server runs as a state machine: the surrounding process reads
//! framed bodies and performs the returned action — write a reply, do
//! nothing, gather the files a definition request needs, or stop.

use vstd::prelude::*;

verus! {

use crate::json::{Json, JsonV, jser};
use crate::json_parse::{jparse, parse_json};
use crate::rpc::{
    InMessage,
    InBody,
    InMessageV,
    InBodyV,
    RequestId,
    RequestIdV,
    rid_v,
    decode_msg,
    decode_in,
};
use crate::out::{
    LSError,
    LSMessageError,
    LSMessageErrorBody,
    LSMessageResponse,
    LSMessageResponseBody,
    LSMessageResponseInitialize,
    error_jsonv,
    response_jsonv,
    result_jsonv,
    initialize_result_jsonv,
    location_result_jsonv,
};
use crate::frame::{frame_spec, frame_message};
use crate::resolve::{candidates_spec, strip_prefix_spec, uri_to_path};
use vstd::string::StringExecFns;

broadcast use vstd::std_specs::vec::group_vec_axioms;

/// How many consecutive read or decode failures end the session.
pub open spec fn failure_threshold() -> nat {
    10
}

/// The framed text of a JSON document.
pub open spec fn framed(doc: JsonV) -> Seq<char> {
    frame_spec(jser(doc))
}

/// The framed error reply for a method the server does not know.
pub open spec fn method_not_found_reply(id: RequestIdV, method: Seq<char>) -> Seq<char> {
    framed(error_jsonv(id, -32601, "Method not found: '"@ + method + "'"@))
}

/// The files a definition request needs before it can be resolved: the
/// markup file itself and the first readable candidate.
pub struct DefinitionTask {
    pub id: RequestId,
    pub line: u32,
    pub character: u32,
    pub uri: String,
    pub html_path: String,
    pub candidates: Vec<String>,
}

/// What the surrounding process must do after handing the server one
/// read: send a reply, send nothing, gather files for a definition, or
/// stop reading.
pub enum ServerAction {
    Reply(String),
    Quiet,
    Definition(DefinitionTask),
    Exit,
}

/// The dispatcher; it holds only the count of consecutive failures.
pub struct LServer {
    error_count: u32,
}

impl LServer {
    /// The consecutive read or decode failures seen since the last good
    /// message.
    pub closed spec fn spec_failures(&self) -> nat {
        self.error_count as nat
    }

    /// The server only ever runs below the fail-safe threshold; reaching
    /// it exits.
    pub open spec fn wf(&self) -> bool {
        self.spec_failures() < failure_threshold()
    }

    pub fn new() -> (s: Self)
        ensures
            s.spec_failures() == 0,
            s.wf(),
    {
        LServer { error_count: 0 }
    }

    /// Count one read or decode failure. No reply is owed to anyone: no
    /// request id could be recovered. The tenth consecutive failure asks
    /// the caller to stop.
    pub fn on_read_failure(&mut self) -> (exit: bool)
        requires
            old(self).wf(),
        ensures
            final(self).spec_failures() == old(self).spec_failures() + 1,
            exit <==> final(self).spec_failures() == failure_threshold(),
            !exit ==> final(self).wf(),
    {
        self.error_count = self.error_count + 1;
        self.error_count == 10
    }

    /// The action a decoded message demands. The `exit` notification
    /// stops the session whatever came before; `initialized` is only
    /// acknowledged; requests are answered.
    pub fn handle(&self, m: InMessage) -> (r: ServerAction)
        ensures
            handled(m@, r),
    {
        match m {
            InMessage::Exit => ServerAction::Exit,
            InMessage::Initialized => ServerAction::Quiet,
            InMessage::Request { id, body } => match body {
                InBody::Initialize { capabilities } => {
                    let init = LSMessageResponseInitialize::new("myls", "0.0.1", &capabilities);
                    let resp = LSMessageResponse::new(
                        id,
                        LSMessageResponseBody::Initialize(init),
                    );
                    ServerAction::Reply(render_response(&resp))
                },
                InBody::Shutdown => {
                    let resp = LSMessageResponse::new(id, LSMessageResponseBody::Shutdown);
                    ServerAction::Reply(render_response(&resp))
                },
                InBody::Unknown { method, params: _ } => {
                    let err = LSMessageError::new(
                        id,
                        LSMessageErrorBody::from(LSError::MethodNotFound(method)),
                    );
                    ServerAction::Reply(render_error(&err))
                },
                InBody::Definition { line, character, uri } => {
                    let candidates = self.get_controller_possible_uris(uri.as_str());
                    if candidates.len() == 0 {
                        let resp = LSMessageResponse::new(
                            id,
                            LSMessageResponseBody::NullResult,
                        );
                        return ServerAction::Reply(render_response(&resp));
                    }
                    match uri_to_path(uri.as_str()) {
                        Ok(path) => {
                            let html_path = String::from_str(path);
                            ServerAction::Definition(
                                (DefinitionTask { id, line, character, uri, html_path, candidates }),
                            )
                        },
                        Err(e) => {
                            proof {
                                assert("Invalid request: "@ + ("unsupported URI scheme: "@
                                    + uri@) =~= "Invalid request: "@
                                    + "unsupported URI scheme: "@ + uri@);
                            }
                            let err = LSMessageError::new(id, LSMessageErrorBody::from(e));
                            ServerAction::Reply(render_error(&err))
                        },
                    }
                },
            },
        }
    }

    /// Decode one framed body and act on it: a body that is not valid
    /// JSON, or whose shape is no message, counts toward the fail-safe
    /// and is never answered; a good message resets the count and is
    /// dispatched.
    pub fn on_body(&mut self, body: &str) -> (r: ServerAction)
        requires
            old(self).wf(),
        ensures
            match decoded_of(body@) {
                None => {
                    &&& final(self).spec_failures() == old(self).spec_failures() + 1
                    &&& (r is Exit <==> final(self).spec_failures() == failure_threshold())
                    &&& (r is Exit || r is Quiet)
                },
                Some(mv) => final(self).spec_failures() == 0 && handled(mv, r),
            },
            r is Exit || final(self).wf(),
    {
        match parse_json(body) {
            None => {
                if self.on_read_failure() {
                    ServerAction::Exit
                } else {
                    ServerAction::Quiet
                }
            },
            Some(doc) => match decode_in(&doc) {
                None => {
                    if self.on_read_failure() {
                        ServerAction::Exit
                    } else {
                        ServerAction::Quiet
                    }
                },
                Some(m) => {
                    self.error_count = 0;
                    self.handle(m)
                },
            },
        }
    }
}

/// The message a framed body text carries, if it parses and decodes.
pub open spec fn decoded_of(body: Seq<char>) -> Option<InMessageV> {
    match jparse(body) {
        Some(doc) => decode_msg(doc),
        None => None,
    }
}

/// The relation between a decoded message and the dispatcher's action:
/// `initialize` is always answered with the definition capability and the
/// fixed server identity; `shutdown` with a null result; an unknown
/// method with a method-not-found error naming it; a definition request
/// either resolves its candidate files or is answered at once; `exit`
/// stops the session even if shutdown was never sent.
pub open spec fn handled(mv: InMessageV, r: ServerAction) -> bool {
    match mv {
        InMessageV::Exit => r is Exit,
        InMessageV::Initialized => r is Quiet,
        InMessageV::Request { id, body } => match body {
            InBodyV::Initialize { capabilities } => r matches ServerAction::Reply(t) && t@
                == framed(response_jsonv(id, initialize_result_jsonv("myls"@, "0.0.1"@))),
            InBodyV::Shutdown => r matches ServerAction::Reply(t) && t@ == framed(
                response_jsonv(id, JsonV::Null),
            ),
            InBodyV::Unknown { method, params } => r matches ServerAction::Reply(t) && t@
                == method_not_found_reply(id, method),
            InBodyV::Definition { line, character, uri } => {
                if candidates_spec(uri).len() == 0 {
                    r matches ServerAction::Reply(t) && t@ == framed(
                        response_jsonv(id, JsonV::Null),
                    )
                } else {
                    match strip_prefix_spec(uri, "file://"@) {
                        Some(path) => r matches ServerAction::Definition(task) && {
                            &&& rid_v(task.id) == id
                            &&& task.line == line
                            &&& task.character == character
                            &&& task.uri@ == uri
                            &&& task.html_path@ == path
                            &&& task.candidates@.len() == candidates_spec(uri).len()
                            &&& forall|i: int|
                                0 <= i < task.candidates@.len() ==> (
                                #[trigger] task.candidates@[i])@ == candidates_spec(uri)[i]
                        },
                        None => r matches ServerAction::Reply(t) && t@ == framed(
                            error_jsonv(
                                id,
                                -32600,
                                "Invalid request: "@ + "unsupported URI scheme: "@ + uri,
                            ),
                        ),
                    }
                }
            },
        },
    }
}

/// Frame a successful response.
pub fn render_response(m: &LSMessageResponse) -> (r: String)
    ensures
        r@ == framed(response_jsonv(rid_v(m.id), result_jsonv(m.result))),
{
    let doc = crate::out::encode_response(m);
    let text = crate::json::write_json(&doc);
    frame_message(text.as_str())
}

/// Frame an error response.
pub fn render_error(m: &LSMessageError) -> (r: String)
    ensures
        r@ == framed(error_jsonv(rid_v(m.id), m.error.code as int, m.error.message@)),
{
    let doc = crate::out::encode_error(m);
    let text = crate::json::write_json(&doc);
    frame_message(text.as_str())
}

/// The framed null result for a request.
pub open spec fn null_reply(id: RequestIdV) -> Seq<char> {
    framed(response_jsonv(id, JsonV::Null))
}

/// The framed internal-error reply carrying a grammar fault's text.
pub open spec fn internal_reply(id: RequestIdV, msg: Seq<char>) -> Seq<char> {
    framed(error_jsonv(id, -32603, "Internal error: "@ + msg))
}

/// The framed location result pointing into the companion file.
pub open spec fn location_reply(
    id: RequestIdV,
    uri: Seq<char>,
    at: ((usize, usize), (usize, usize)),
) -> Seq<char> {
    framed(response_jsonv(id, location_result_jsonv(uri, crate::resolve::field_range(at))))
}

/// The reply a definition request is owed once its files are in hand.
/// An unreadable markup file is an invalid request. Only infrastructure
/// failures are errors: a grammar or structural-query fault at any stage
/// is answered with an internal error. Every inconclusive stage — a
/// missing companion, a markup or fragment that does not parse or read
/// back, no property access on `vm`, an unparseable companion, no public
/// field — is the null result, never an error. Otherwise the reply
/// points at the first public field definition of the companion, in
/// document order, with the name node's own boundaries as the range.
pub open spec fn definition_reply(
    id: RequestIdV,
    line: u32,
    character: u32,
    html: Result<String, String>,
    companion: Option<(String, String)>,
) -> Seq<char> {
    match html {
        Err(e) => framed(
            error_jsonv(id, -32600, "Invalid request: "@ + "Couldn't read HTML: "@ + e@),
        ),
        Ok(h) => match companion {
            None => null_reply(id),
            Some(c) => match crate::sitter::markup_scan_of(h@, line, character) {
                crate::sitter::MarkupScanV::Fault(m) => internal_reply(id, m),
                crate::sitter::MarkupScanV::NoText => null_reply(id),
                crate::sitter::MarkupScanV::Text(frag) => match crate::sitter::js_parse_of(
                    frag,
                ) {
                    crate::sitter::JsParseV::Fault(m) => internal_reply(id, m),
                    crate::sitter::JsParseV::NoParse => null_reply(id),
                    crate::sitter::JsParseV::Parsed => match crate::sitter::vm_props_of(frag) {
                        crate::sitter::JsPropsV::Fault(m) => internal_reply(id, m),
                        crate::sitter::JsPropsV::Unreadable => null_reply(id),
                        crate::sitter::JsPropsV::Props(ps) => if ps.len() == 0 {
                            null_reply(id)
                        } else if !crate::sitter::ts_parses(c.1@) {
                            null_reply(id)
                        } else {
                            match crate::sitter::ts_fields_of(c.1@) {
                                crate::sitter::TsFieldScanV::Fault(m) => internal_reply(id, m),
                                crate::sitter::TsFieldScanV::Fields(fs) => if fs.len() == 0 {
                                    null_reply(id)
                                } else {
                                    location_reply(id, c.0@, fs[0])
                                },
                            }
                        },
                    },
                },
            },
        },
    }
}

/// The framed internal-error reply carrying a grammar fault's text.
fn internal_error_reply(id: RequestId, msg: String) -> (r: String)
    ensures
        r@ == internal_reply(rid_v(id), msg@),
{
    let err = LSMessageError::new(id, LSMessageErrorBody::from(LSError::internal(msg)));
    render_error(&err)
}

impl LServer {
    /// Resolve a definition request once its files are in hand: the
    /// markup text, or the fault that reading it gave, and the first
    /// readable companion candidate with its contents. Only that one
    /// candidate is tried; there is no fallback to a later one when it
    /// does not parse.
    pub fn finish_definition(
        &self,
        id: RequestId,
        line: u32,
        character: u32,
        html: Result<String, String>,
        companion: Option<(String, String)>,
    ) -> (r: String)
        ensures
            r@ == definition_reply(rid_v(id), line, character, html, companion),
    {
        let html_text = match html {
            Ok(t) => t,
            Err(e) => {
                proof {
                    assert("Invalid request: "@ + ("Couldn't read HTML: "@ + e@)
                        =~= "Invalid request: "@ + "Couldn't read HTML: "@ + e@);
                }
                let detail = String::from_str("Couldn't read HTML: ").concat(e.as_str());
                let err = LSMessageError::new(
                    id,
                    LSMessageErrorBody::from(LSError::InvalidRequest { message: detail }),
                );
                return render_error(&err);
            },
        };
        let (ts_uri, ts_src) = match companion {
            Some(p) => p,
            None => {
                let resp = LSMessageResponse::new(id, LSMessageResponseBody::NullResult);
                return render_response(&resp);
            },
        };
        // markup stage: the smallest node covering the cursor
        let frag = match crate::sitter::markup_scan(html_text.as_str(), line, character) {
            crate::sitter::MarkupScan::Fault(m) => {
                return internal_error_reply(id, m);
            },
            crate::sitter::MarkupScan::NoText => {
                let resp = LSMessageResponse::new(id, LSMessageResponseBody::NullResult);
                return render_response(&resp);
            },
            crate::sitter::MarkupScan::Text(t) => t,
        };
        // expression stage: reparse the fragment and query the property
        // accesses on `vm`
        let js_tree = match crate::sitter::parse_js(frag.as_str()) {
            Err(m) => {
                return internal_error_reply(id, m);
            },
            Ok(None) => {
                let resp = LSMessageResponse::new(id, LSMessageResponseBody::NullResult);
                return render_response(&resp);
            },
            Ok(Some(t)) => t,
        };
        let props = match crate::sitter::js_vm_properties(&js_tree, frag.as_str()) {
            crate::sitter::JsProps::Fault(m) => {
                return internal_error_reply(id, m);
            },
            crate::sitter::JsProps::Unreadable => {
                let resp = LSMessageResponse::new(id, LSMessageResponseBody::NullResult);
                return render_response(&resp);
            },
            crate::sitter::JsProps::Props(v) => v,
        };
        if props.len() == 0 {
            let resp = LSMessageResponse::new(id, LSMessageResponseBody::NullResult);
            return render_response(&resp);
        }
        // companion stage: the first public field definition wins
        let ts_tree = match crate::sitter::parse_ts(ts_src.as_str()) {
            None => {
                let resp = LSMessageResponse::new(id, LSMessageResponseBody::NullResult);
                return render_response(&resp);
            },
            Some(t) => t,
        };
        let fields = match crate::sitter::ts_public_fields(&ts_tree, ts_src.as_str()) {
            crate::sitter::TsFieldScan::Fault(m) => {
                return internal_error_reply(id, m);
            },
            crate::sitter::TsFieldScan::Fields(v) => v,
        };
        let outcome = crate::resolve::definition_outcome(ts_uri.as_str(), &props, &fields);
        let resp = LSMessageResponse::new(id, outcome);
        render_response(&resp)
    }
}

} // verus!
