pub mod auth;
pub mod manager;
pub mod multiplexer;
