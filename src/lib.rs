//! A local gateway between AI coding tools and tool servers speaking the
//! JSON-RPC tool protocol: wire parsing, transports' bookkeeping, the
//! connection lifecycle, the gateway's routing rules and the OAuth helpers.
pub mod client;
pub mod error;
pub mod gateway;
pub mod http;
pub mod lifecycle;
pub mod oauth;
pub mod pending;
pub mod registry;
pub mod rpc;
pub mod sse;
pub mod state;
pub mod stats;
pub mod stdio;
pub mod table;
pub mod text;
