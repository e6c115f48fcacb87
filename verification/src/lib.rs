//! Translation core of an OpenAI-compatible proxy for a code-assist
//! generation backend: schema translation in both directions, decoding of
//! the backend's event stream, credential-lifecycle and project-resolution
//! decisions, and the configuration record they act on. Everything here is
//! verified; the surrounding process (HTTP, files, the authorization
//! handshake) lives outside and hands in plain values.

pub mod auth;
pub mod config;
pub mod constants;
pub mod proxy;
pub mod server;
pub mod sse;
pub mod strutil;
pub mod transform;
