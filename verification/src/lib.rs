//! A gateway that presents the tools of several backend tool servers as one
//! catalog, and routes each call to the backend that owns the tool.
//!
//! The gateway speaks JSON-RPC, one message per line, to its caller and to
//! each backend. This crate holds what the gateway decides: what a line of
//! input leads to, which request goes to which backend, and which reply
//! answers which request. Reading and writing the lines, and running the
//! backend processes, is left to the program around it.
//!
//! - `naming`: normalised tool names and the prefixed names of the catalog.
//! - `json`: JSON documents, the parser and the printer.
//! - `session`: the session with one backend and its outstanding requests.
//! - `startup`: bringing a backend up, by handshake and discovery.
//! - `aggregator`, `registry`: the sessions and the catalog, and routing.
//! - `wire`: tools and results as JSON.
//! - `server`: requests, responses, dispatch, and the gateway's life.
//! - `config`, `logger`, `error`, `text`: settings, log levels, failures,
//!   strings.

pub mod aggregator;
pub mod config;
pub mod error;
pub mod json;
pub mod logger;
pub mod naming;
pub mod registry;
pub mod server;
pub mod session;
pub mod startup;
pub mod text;
pub mod wire;
