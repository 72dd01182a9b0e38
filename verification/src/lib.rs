//! A protection-key-guarded shared-memory handshake: two roles exchange
//! a request and a response through memory regions whose write access is
//! gated by hardware protection keys, synchronized by a one-byte
//! readiness flag that each producer flips around its write. The
//! request and response payloads are a small word-counting codec over a
//! JSON envelope.
pub mod codec;
pub mod domain;
pub mod errors;
pub mod flag;
pub mod handshake;
pub mod fmt;
pub mod freq;
pub mod pipes;
pub mod region;
pub mod strutil;
pub mod tokenize;
