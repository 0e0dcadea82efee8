//! OAuth 1.0a authentication core: percent-encoding, parameter
//! canonicalization, HMAC-SHA1 request signing, a one-shot request
//! builder, the token-handshake parsing steps, and the error taxonomy.

pub mod auth;
pub mod codec;
pub mod error;
pub mod links;
pub mod params;
pub mod raw;
pub mod signature;
