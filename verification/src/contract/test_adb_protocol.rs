use vstd::prelude::*;
use crate::protocol::message::{AdbMessage, well_formed};
use crate::protocol::crc::crc32_of;
use crate::text::to_owned_string;

verus! {

/// The client side of the protocol, as far as tests need it.
#[derive(Debug)]
pub struct AdbProtocol {
    /// Operation timeout in milliseconds.
    pub timeout_ms: u64,
}

impl AdbProtocol {
    /// A 30 s timeout.
    pub fn new() -> (r: Self)
        ensures
            r.timeout_ms == 30_000,
    {
        AdbProtocol { timeout_ms: 30_000 }
    }

    /// The given timeout.
    pub fn with_timeout(timeout_ms: u64) -> (r: Self)
        ensures
            r.timeout_ms == timeout_ms,
    {
        AdbProtocol { timeout_ms }
    }

    /// Accepts a message whose header agrees with its payload and checksum.
    pub fn validate_message(&self, message: &AdbMessage) -> (r: Result<(), String>)
        ensures
            r is Ok <==> (well_formed(message@) && message.data_crc32 == crc32_of(message.data@)),
            r matches Err(e) ==> e@ == "Invalid message"@,
    {
        if !message.is_valid() {
            return Err(to_owned_string("Invalid message"));
        }
        Ok(())
    }
}

} // verus!
