//! Verified core of a Signal JSON-RPC and event-stream daemon.
pub mod byte_map;
pub mod calls;
pub mod clock;
pub mod codec;
pub mod contacts;
pub mod effects;
pub mod ident;
pub mod json;
pub mod laws;
pub mod link;
pub mod message;
pub mod params;
pub mod rpc;
pub mod server;
pub mod session;
pub mod sse;
pub mod state;
pub mod text;
pub mod ws;
