//! A minimal client library for a remote large-language-model HTTP API.
//!
//! The library holds the decision logic of the client: which headers a
//! request carries, how a response body or a transport chunk is decoded
//! as UTF-8, and how a stream of chunks is consumed. The surrounding
//! HTTP transport (connecting, sending, awaiting chunks) lives outside
//! the library and hands it plain values.

pub mod client;
pub mod codec;
pub mod stream;

pub use client::ApiClient;
pub use client::Response;
pub use codec::decode_chunk;
pub use codec::utf8_is_valid;
