//! dewey: the verified core of a command-line client for open ebook
//! libraries. Library modules are separate programs spoken to over a
//! one-line JSON-RPC exchange; this crate holds the data model, the
//! manifest and configuration rules, request framing, download naming and
//! retry decisions, and the text rendering of results.

pub mod book;
pub mod cli;
pub mod config;
pub mod errors;
pub mod paths;
pub mod text;
pub mod discovery;
pub mod download;
pub mod module;
pub mod output;
pub mod session;
