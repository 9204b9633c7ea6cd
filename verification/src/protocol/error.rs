use vstd::prelude::*;

verus! {

/// Errors of the protocol layer.
#[derive(Debug, Clone, PartialEq, Eq)]
pub enum ProtocolError {
    /// The message is not well formed.
    InvalidMessage,
    /// The payload checksum did not match.
    CrcValidationFailed,
    /// The command code is not one of the protocol's.
    UnknownCommand(u32),
    /// The connection failed.
    ConnectionError(String),
    /// A stream buffer cannot take the data.
    StreamBufferOverflow { size: usize, capacity: usize },
    /// A session already holds as many streams as it may.
    MaxStreamsExceeded { count: usize, max: usize },
    /// The magic field is not the complement of the command.
    InvalidMagic { expected: u32, actual: u32 },
    /// The length field does not match the payload.
    DataLengthMismatch { claimed: u32, actual: usize },
    /// The checksum field does not match the payload.
    ChecksumMismatch { expected: u32, calculated: u32 },
    /// The peer speaks another protocol version.
    UnsupportedVersion { version: u32 },
    /// A text field is not valid UTF-8; what it was.
    InvalidText { message: String },
    /// The server holds as many connections as it may.
    MaxConnectionsExceeded { count: usize, max: usize },
    /// No device has this id.
    DeviceNotFound { device_id: String },
    /// The device did not answer in time.
    Timeout { timeout_ms: u64 },
    /// The connection to a device failed.
    DeviceConnectionFailed { device_id: String, reason: String },
    /// The connection is closed.
    ConnectionClosed,
    /// No such session.
    SessionNotFound { session_id: String },
    /// No such stream.
    StreamNotFound { local_id: u32, remote_id: u32 },
    /// A host service could not answer.
    HostServiceError { service: String, message: String },
}

} // verus!
