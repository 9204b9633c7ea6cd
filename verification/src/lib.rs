//! Verified core of the dbgif debug-interface server: the ADB-like wire
//! protocol, its ASCII client protocol, the handshake and authentication
//! state machines, and the decision logic of the server components.

pub mod wire;
pub mod hex;
pub mod text;
pub mod clock;
pub mod buffer;
pub mod protocol;
pub mod session;
pub mod transport;
pub mod server;
pub mod logging;
pub mod host_services;
pub mod discovery;
pub mod config;
pub mod contract;

pub mod shutdown;
pub mod services;
