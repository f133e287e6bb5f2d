//! Verified core of a single-tenant collections server: websocket framing, a
//! keep-alive heartbeat, a token-keyed store of saved views with subscriber
//! fan-out, and the request routing and claim/save chain of a web session.
pub mod frame;
pub mod notify;
pub mod encoding;
pub mod store;
pub mod connection;
pub mod path;
pub mod session;
pub mod claim;
