pub mod host_commands;
pub mod stream;
pub mod device_registry;
pub mod ascii_handler;
pub mod client_handler;
pub mod state;
pub mod dispatcher;
pub mod connection_manager;
pub mod device_manager;
pub mod heartbeat;
pub mod shutdown;
pub mod limits;
pub mod message_handler;
pub mod tcp_server;
