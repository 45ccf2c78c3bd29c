//! Per-bucket storage credentials: a registry of baseline configurations and a
//! proxy that resolves, caches and refreshes token-scoped credentials.
//!
//! A request names a bucket and a token. The proxy answers it from the
//! bucket's baseline where that carries a credential of its own, else from a
//! cache of fetched payloads, each served until its bucket's TTL has passed.
//! The proxy itself neither fetches, nor reads a clock, nor locks: it decides,
//! step by step, and its caller does the rest around it.

pub mod credentials;
pub mod parsers;
