use vstd::prelude::*;
use crate::text::to_owned_string;

verus! {

/// The text this library reports as its version: package name and version.
pub open spec fn package_version() -> Seq<char> {
    "dbgif-protocol 0.1.0"@
}

/// Answers "host:version" with a version text.
#[derive(Debug)]
pub struct HostVersionService {
    version_string: String,
}

impl HostVersionService {
    /// The text this service answers.
    pub closed spec fn spec_version(&self) -> Seq<char> {
        self.version_string@
    }

    /// Reports this package's name and version.
    pub fn new() -> (r: Self)
        ensures
            r.spec_version() == package_version(),
    {
        HostVersionService { version_string: to_owned_string("dbgif-protocol 0.1.0") }
    }

    /// Reports `version_string`.
    pub fn with_version(version_string: String) -> (r: Self)
        ensures
            r.spec_version() == version_string@,
    {
        HostVersionService { version_string }
    }

    /// The text this service answers.
    pub fn version_string(&self) -> (r: &str)
        ensures
            r@ == self.spec_version(),
    {
        self.version_string.as_str()
    }

    /// The service's name.
    pub fn service_name(&self) -> (r: &'static str)
        ensures
            r@ == "host:version"@,
    {
        "host:version"
    }
}

impl Default for HostVersionService {
    fn default() -> (r: Self)
        ensures
            r.spec_version() == package_version(),
    {
        Self::new()
    }
}

} // verus!
