//! Core logic of a QUIC-transported, HTTP-like file-transfer test harness.
//!
//! The library covers the parts of the harness whose behaviour is worth
//! stating and proving: the sandboxed path resolver that maps a requested
//! path onto the served root, the testcase-to-TLS-policy mapping, the
//! validation of the run configuration, the PEM credential parsing rules,
//! and the request/response decisions of the server and client. Network
//! and file I/O live outside the library and hand it plain values.

pub mod client;
pub mod env_parser;
pub mod request;
pub mod resolve;
pub mod server;
pub mod testcase;
pub mod uri;
