pub mod host_service;
