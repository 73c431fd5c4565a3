//! A minimal editor-protocol server library.
//!
//! The crate decodes length-framed JSON-RPC style messages, dispatches the
//! handful of request types the server answers, and resolves
//! "go to definition" queries from a markup template into an associated
//! typed source file by chaining syntax-tree pattern matching across three
//! grammars.

pub mod chars;
pub mod frame;
pub mod json;
pub mod json_parse;
pub mod num;
pub mod out;
pub mod resolve;
pub mod rpc;
pub mod server;
pub mod sitter;
