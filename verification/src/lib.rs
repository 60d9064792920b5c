//! A client for the SurrealDB JSON-RPC protocol over a websocket.
//!
//! The library builds every request that the client sends, as the exact text
//! that goes on the wire, and decides what each call returns from what the
//! socket and the JSON decoder report. The socket itself, and the decoding of
//! replies into caller-chosen types, are driven by the caller.
mod outside;
pub mod json_text;
pub mod verbs;
pub mod interaction;
