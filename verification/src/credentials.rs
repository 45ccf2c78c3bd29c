//! Token-scoped credentials: their decoding, their cache and the proxy that
//! decides when one has to be fetched.

pub mod bucket_creds_proxy;
pub mod cache;
pub mod laws;
pub mod models;
