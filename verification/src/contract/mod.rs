//! Fixed stand-ins the integration tests of the server use.

pub mod test_adb_protocol;
pub mod test_transport_factories;
pub mod test_daemon_api;
