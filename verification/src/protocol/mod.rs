pub mod constants;
pub mod commands;
pub mod crc;
pub mod checksum;
pub mod message;
pub mod ascii;
pub mod host_commands;
pub mod handshake;
pub mod stream;
pub mod parser;
pub mod serializer;
pub mod error;
