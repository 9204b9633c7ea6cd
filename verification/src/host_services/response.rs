use vstd::prelude::*;
use crate::text::{has_prefix, starts_with, to_owned_string, string_bytes};
use vstd::utf8::encode_utf8;

verus! {

/// What a host service answers.
#[derive(Debug, Clone)]
pub enum HostServiceResponse {
    /// Success, with data.
    Okay(Vec<u8>),
    /// Failure, with a message; the stream is closed.
    Close(String),
}

impl HostServiceResponse {
    /// Success with the bytes of `data`.
    pub fn okay_str(data: &str) -> (r: Self)
        ensures
            r matches HostServiceResponse::Okay(d) && d@ == encode_utf8(data@),
    {
        HostServiceResponse::Okay(string_bytes(data))
    }

    /// Success with no data.
    pub fn okay_empty() -> (r: Self)
        ensures
            r matches HostServiceResponse::Okay(d) && d@.len() == 0,
    {
        HostServiceResponse::Okay(Vec::new())
    }

    /// Failure with `message`.
    pub fn close(message: &str) -> (r: Self)
        ensures
            r matches HostServiceResponse::Close(m) && m@ == message@,
    {
        HostServiceResponse::Close(to_owned_string(message))
    }
}

/// Whether a service name is one the server answers itself ("host:…").
pub fn is_host_service(service_name: &str) -> (r: bool)
    ensures
        r == has_prefix(service_name@, "host:"@),
{
    starts_with(service_name, "host:")
}

} // verus!
