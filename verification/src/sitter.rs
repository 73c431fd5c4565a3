//! The grammar frontends, as trusted capabilities over the syntax-tree
//! library, from plain text to plain values: scan the markup for the node
//! covering a point, reparse an expression fragment and query it for
//! property accesses on `vm`, and parse a typed source and query it for
//! public field definitions.
//!
//! Every stage's result is a function of the text handed to it alone —
//! the library's parsing and query matching consult neither chance, time
//! nor the environment — so each step is pinned to an uninterpreted name,
//! and the resolution logic that consumes the results is verified against
//! those names. A tree is tied to the text it was parsed from, per
//! grammar, by `js_tree_src` and `ts_tree_src`, and each query wrapper
//! requires the tie of its own grammar, so a tree is only ever queried
//! against its own source and under the grammar that built it.

use vstd::prelude::*;
use tree_sitter::{Parser, Query, QueryCursor, StreamingIterator};

verus! {

#[verifier::external_type_specification]
#[verifier::external_body]
pub struct ExTree(tree_sitter::Tree);

/// The text a tree produced by the JavaScript parser was parsed from:
/// what such a tree holds.
pub uninterp spec fn js_tree_src(t: tree_sitter::Tree) -> Seq<char>;

/// The text a tree produced by the TypeScript parser was parsed from:
/// what such a tree holds.
pub uninterp spec fn ts_tree_src(t: tree_sitter::Tree) -> Seq<char>;

/// What the markup stage found: a grammar fault with its text, no
/// readable covering node, or the text of the smallest node covering the
/// cursor.
pub enum MarkupScan {
    Fault(String),
    NoText,
    Text(String),
}

/// The mathematical shape of a markup scan.
pub enum MarkupScanV {
    Fault(Seq<char>),
    NoText,
    Text(Seq<char>),
}

pub open spec fn markup_scan_v(m: MarkupScan) -> MarkupScanV {
    match m {
        MarkupScan::Fault(s) => MarkupScanV::Fault(s@),
        MarkupScan::NoText => MarkupScanV::NoText,
        MarkupScan::Text(s) => MarkupScanV::Text(s@),
    }
}

/// What the markup stage yields for a text and cursor: the text of the
/// smallest node whose span covers the point, found by descending
/// greedily from the root.
pub uninterp spec fn markup_scan_of(text: Seq<char>, line: u32, character: u32) -> MarkupScanV;

/// Relies on `tree_sitter::Parser::parse` with the HTML grammar,
/// `TreeCursor::goto_first_child_for_point` and `Node::utf8_text`: parse
/// the markup, descend to the smallest node covering the cursor, and read
/// its text back out of the same source that was parsed. The whole stage
/// — the calls and the descent loop over opaque cursor values — is taken
/// on trust as one capability.
#[verifier::external_body]
pub(crate) fn markup_scan(text: &str, line: u32, character: u32) -> (r: MarkupScan)
    ensures
        markup_scan_v(r) == markup_scan_of(text@, line, character),
{
    let mut p = Parser::new();
    if let Err(e) = p.set_language(&tree_sitter_html::LANGUAGE.into()) { return MarkupScan::Fault(e.to_string()); }
    let tree = match p.parse(text, None) { Some(t) => t, None => { return MarkupScan::NoText } };
    let mut cursor = tree.walk();
    let point = tree_sitter::Point::new(line as usize, character as usize);
    while cursor.goto_first_child_for_point(point).is_some() {}
    match cursor.node().utf8_text(text.as_bytes()) {
        Ok(t) => MarkupScan::Text(t.to_string()),
        Err(_) => MarkupScan::NoText,
    }
}

/// How parsing a text with the expression grammar comes out.
pub enum JsParseV {
    Fault(Seq<char>),
    NoParse,
    Parsed,
}

/// What parsing a fragment with the expression grammar yields.
pub uninterp spec fn js_parse_of(text: Seq<char>) -> JsParseV;

/// Relies on `tree_sitter::Parser::set_language` and `Parser::parse` with
/// the JavaScript grammar: a language fault is reported with its text, a
/// failed parse as `None`, and a tree holds exactly the text it was
/// parsed from.
#[verifier::external_body]
pub(crate) fn parse_js(text: &str) -> (r: Result<Option<tree_sitter::Tree>, String>)
    ensures
        match r {
            Err(m) => js_parse_of(text@) == JsParseV::Fault(m@),
            Ok(None) => js_parse_of(text@) is NoParse,
            Ok(Some(t)) => js_parse_of(text@) is Parsed && js_tree_src(t) == text@,
        },
{
    let mut p = Parser::new();
    match p.set_language(&tree_sitter_javascript::LANGUAGE.into()) {
        Ok(()) => Ok(p.parse(text, None)),
        Err(e) => Err(e.to_string()),
    }
}

/// What the expression query found: a query fault with its text, a
/// capture that could not be read back, or the accessed property names
/// in match order.
pub enum JsProps {
    Fault(String),
    Unreadable,
    Props(Vec<String>),
}

/// The mathematical shape of an expression scan.
pub enum JsPropsV {
    Fault(Seq<char>),
    Unreadable,
    Props(Seq<Seq<char>>),
}

pub open spec fn js_props_v(p: JsProps) -> JsPropsV {
    match p {
        JsProps::Fault(s) => JsPropsV::Fault(s@),
        JsProps::Unreadable => JsPropsV::Unreadable,
        JsProps::Props(v) => JsPropsV::Props(Seq::new(v@.len(), |i: int| v@[i]@)),
    }
}

/// What the expression query yields for a fragment: the names of the
/// properties accessed on the literal identifier `vm`, in match order.
pub uninterp spec fn vm_props_of(frag: Seq<char>) -> JsPropsV;

/// Relies on `tree_sitter::Query::new` and `QueryCursor::matches`: run
/// the fixed structural query for property accesses on `vm` over a tree
/// the JavaScript parser built, reading the captures back out of the
/// source that tree was parsed from.
#[verifier::external_body]
pub(crate) fn js_vm_properties(tree: &tree_sitter::Tree, src: &str) -> (r: JsProps)
    requires
        js_tree_src(*tree) == src@,
    ensures
        js_props_v(r) == vm_props_of(src@),
{
    let made = Query::new(&tree_sitter_javascript::LANGUAGE.into(), "(member_expression object: (identifier) @obj (#eq? @obj \"vm\") property: (property_identifier) @method)");
    let query = match made { Ok(q) => q, Err(e) => { return JsProps::Fault(e.to_string()) } };
    let mut cursor = QueryCursor::new();
    let mut ms = cursor.matches(&query, tree.root_node(), src.as_bytes());
    let mut props: Vec<String> = Vec::new();
    while let Some(m) = ms.next() {
        if let Some(cap) = m.captures().get(1) {
            match cap.node.utf8_text(src.as_bytes()) { Ok(t) => props.push(t.to_string()), Err(_) => { return JsProps::Unreadable } }
        }
    }
    JsProps::Props(props)
}

/// Whether a text parses under the typed-source grammar.
pub uninterp spec fn ts_parses(text: Seq<char>) -> bool;

/// Relies on `tree_sitter::Parser::parse` with the TypeScript grammar; a
/// language fault is ignored and then surfaces as a failed parse. A tree
/// holds exactly the text it was parsed from.
#[verifier::external_body]
pub(crate) fn parse_ts(text: &str) -> (r: Option<tree_sitter::Tree>)
    ensures
        match r {
            Some(t) => ts_parses(text@) && ts_tree_src(t) == text@,
            None => !ts_parses(text@),
        },
{
    let mut p = Parser::new();
    let _ = p.set_language(&tree_sitter_typescript::LANGUAGE_TYPESCRIPT.into());
    p.parse(text, None)
}

/// What the typed-source query found: a query fault with its text, or
/// the node boundaries of the public field definitions' names — each a
/// `(start, end)` pair of `(row, column)` positions — in document order.
pub enum TsFieldScan {
    Fault(String),
    Fields(Vec<((usize, usize), (usize, usize))>),
}

/// The mathematical shape of a typed-source scan.
pub enum TsFieldScanV {
    Fault(Seq<char>),
    Fields(Seq<((usize, usize), (usize, usize))>),
}

pub open spec fn ts_scan_v(s: TsFieldScan) -> TsFieldScanV {
    match s {
        TsFieldScan::Fault(t) => TsFieldScanV::Fault(t@),
        TsFieldScan::Fields(v) => TsFieldScanV::Fields(v@),
    }
}

/// What the typed-source query yields for a source: each public field
/// definition name's node boundaries, in document order.
pub uninterp spec fn ts_fields_of(src: Seq<char>) -> TsFieldScanV;

/// Relies on `tree_sitter::Query::new`, `QueryCursor::matches`,
/// `Node::start_position` and `Node::end_position`: run the fixed
/// structural query for public field definitions over a tree the
/// TypeScript parser built from this source.
#[verifier::external_body]
pub(crate) fn ts_public_fields(tree: &tree_sitter::Tree, src: &str) -> (r: TsFieldScan)
    requires
        ts_tree_src(*tree) == src@,
    ensures
        ts_scan_v(r) == ts_fields_of(src@),
{
    let made = Query::new(&tree_sitter_typescript::LANGUAGE_TYPESCRIPT.into(), "(public_field_definition name: (property_identifier) @prop)");
    let query = match made { Ok(q) => q, Err(e) => { return TsFieldScan::Fault(e.to_string()) } };
    let mut cursor = QueryCursor::new();
    let mut ms = cursor.matches(&query, tree.root_node(), src.as_bytes());
    let mut spans: Vec<((usize, usize), (usize, usize))> = Vec::new();
    while let Some(m) = ms.next() {
        if let Some(cap) = m.captures().get(0) {
            let a = cap.node.start_position();
            let b = cap.node.end_position();
            spans.push(((a.row, a.column), (b.row, b.column)));
        }
    }
    TsFieldScan::Fields(spans)
}

} // verus!
