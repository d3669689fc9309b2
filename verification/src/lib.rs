//! Core of a round-robin reverse proxy for chat-completion requests.
//!
//! The library owns the rotation state that picks an upstream gateway
//! credential (and, independently, a provider API key) for each request,
//! the request-forwarding logic that rewrites headers and the streaming
//! flag, and the synthesizer that presents a buffered upstream response
//! as a server-sent-event stream.

pub mod config;
pub mod harness;
pub mod headers;
pub mod json;
pub mod proxy;
pub mod sse;
pub mod strutil;
