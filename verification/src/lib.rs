//! Verified core of two small HTTP API clients: a search/answer client and an
//! image-generation client. The library holds everything that can be checked:
//! a JSON model with a parser and printers, the resolution-hint normalizer,
//! the credential-resolution policy, and the request/response handling of both
//! tools. Network, keychain and file I/O live outside, in the application
//! shell, which exchanges plain values with this crate.

pub mod credential;
pub mod image;
pub mod json;
pub mod parse;
pub mod resolution;
pub mod roundtrip;
pub mod search;
pub mod text;
