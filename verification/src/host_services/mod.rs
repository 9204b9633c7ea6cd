//! Services the server answers itself ("host:list", "host:version").

pub mod response;
pub mod list;
pub mod version;
pub mod registry;

pub use response::{HostServiceResponse, is_host_service};
pub use registry::{HostService, HostServiceRegistry};
