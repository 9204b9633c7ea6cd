use vstd::prelude::*;

verus! {

/// A client of the daemon, by address.
#[derive(Debug)]
pub struct DaemonClient {
    pub host: String,
    pub port: u16,
}

/// A client's session, by id.
#[derive(Debug)]
pub struct ClientSession {
    pub session_id: u32,
}

} // verus!
