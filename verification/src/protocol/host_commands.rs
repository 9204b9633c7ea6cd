use vstd::prelude::*;
use crate::text::{has_prefix, starts_with, str_eq, skip_chars, to_owned_string, push_str};

verus! {

/// A command addressed to the server itself ("host:..." services).
#[derive(Debug, Clone, PartialEq)]
pub enum HostCommand {
    /// List all devices: "host:devices"
    Devices,
    /// List devices with details: "host:devices-l"
    DevicesLong,
    /// Track device connections: "host:track-devices"
    TrackDevices,
    /// Select specific device: "host:transport:<serial>"
    Transport(String),
    /// Select any available device: "host:transport-any"
    TransportAny,
}

/// A host command as a value the contracts compare.
pub enum HostCommandSpec {
    Devices,
    DevicesLong,
    TrackDevices,
    Transport(Seq<char>),
    TransportAny,
}

/// Why a service string is not a host command.
#[derive(Debug, Clone, PartialEq)]
pub enum HostCommandError {
    /// The service does not start with "host:"; carries the service.
    NotHostCommand(String),
    /// "host:transport:" with nothing after it.
    EmptySerial,
    /// "host:" followed by something unknown; carries what followed.
    UnknownCommand(String),
}

/// The kinds of parse error, as a value the contracts compare.
pub enum HostCommandErrorSpec {
    NotHostCommand(Seq<char>),
    EmptySerial,
    UnknownCommand(Seq<char>),
}

impl View for HostCommand {
    type V = HostCommandSpec;

    open spec fn view(&self) -> HostCommandSpec {
        match self {
            HostCommand::Devices => HostCommandSpec::Devices,
            HostCommand::DevicesLong => HostCommandSpec::DevicesLong,
            HostCommand::TrackDevices => HostCommandSpec::TrackDevices,
            HostCommand::Transport(s) => HostCommandSpec::Transport(s@),
            HostCommand::TransportAny => HostCommandSpec::TransportAny,
        }
    }
}

impl View for HostCommandError {
    type V = HostCommandErrorSpec;

    open spec fn view(&self) -> HostCommandErrorSpec {
        match self {
            HostCommandError::NotHostCommand(s) => HostCommandErrorSpec::NotHostCommand(s@),
            HostCommandError::EmptySerial => HostCommandErrorSpec::EmptySerial,
            HostCommandError::UnknownCommand(s) => HostCommandErrorSpec::UnknownCommand(s@),
        }
    }
}

/// What parsing a service string gives.
pub open spec fn spec_parse(service: Seq<char>) -> Result<HostCommandSpec, HostCommandErrorSpec> {
    if !has_prefix(service, "host:"@) {
        Err(HostCommandErrorSpec::NotHostCommand(service))
    } else {
        let rest = service.skip(5);
        if rest == "devices"@ {
            Ok(HostCommandSpec::Devices)
        } else if rest == "devices-l"@ {
            Ok(HostCommandSpec::DevicesLong)
        } else if rest == "track-devices"@ {
            Ok(HostCommandSpec::TrackDevices)
        } else if rest == "transport-any"@ {
            Ok(HostCommandSpec::TransportAny)
        } else if has_prefix(rest, "transport:"@) {
            if rest.len() == 10 {
                Err(HostCommandErrorSpec::EmptySerial)
            } else {
                Ok(HostCommandSpec::Transport(rest.skip(10)))
            }
        } else {
            Err(HostCommandErrorSpec::UnknownCommand(rest))
        }
    }
}

/// The service string of a host command.
pub open spec fn spec_service_string(c: HostCommandSpec) -> Seq<char> {
    match c {
        HostCommandSpec::Devices => "host:devices"@,
        HostCommandSpec::DevicesLong => "host:devices-l"@,
        HostCommandSpec::TrackDevices => "host:track-devices"@,
        HostCommandSpec::TransportAny => "host:transport-any"@,
        HostCommandSpec::Transport(serial) => "host:transport:"@ + serial,
    }
}

impl HostCommand {
    /// Parse host command from service string.
    pub fn parse(service: &str) -> (r: Result<HostCommand, HostCommandError>)
        ensures
            match (r, spec_parse(service@)) {
                (Ok(c), Ok(s)) => c@ == s,
                (Err(e), Err(f)) => e@ == f,
                _ => false,
            },
    {
        proof {
            reveal_strlit("host:");
            reveal_strlit("transport:");
        }
        if !starts_with(service, "host:") {
            return Err(HostCommandError::NotHostCommand(to_owned_string(service)));
        }
        let command_part = skip_chars(service, 5);
        let cp = command_part.as_str();
        if str_eq(cp, "devices") {
            Ok(HostCommand::Devices)
        } else if str_eq(cp, "devices-l") {
            Ok(HostCommand::DevicesLong)
        } else if str_eq(cp, "track-devices") {
            Ok(HostCommand::TrackDevices)
        } else if str_eq(cp, "transport-any") {
            Ok(HostCommand::TransportAny)
        } else if starts_with(cp, "transport:") {
            let serial = skip_chars(cp, 10);
            if serial.as_str().unicode_len() == 0 {
                Err(HostCommandError::EmptySerial)
            } else {
                Ok(HostCommand::Transport(serial))
            }
        } else {
            Err(HostCommandError::UnknownCommand(command_part))
        }
    }

    /// Convert back to service string.
    pub fn to_service_string(&self) -> (r: String)
        ensures
            r@ == spec_service_string(self@),
    {
        match self {
            HostCommand::Devices => to_owned_string("host:devices"),
            HostCommand::DevicesLong => to_owned_string("host:devices-l"),
            HostCommand::TrackDevices => to_owned_string("host:track-devices"),
            HostCommand::TransportAny => to_owned_string("host:transport-any"),
            HostCommand::Transport(serial) => {
                let mut s = to_owned_string("host:transport:");
                push_str(&mut s, serial.as_str());
                s
            },
        }
    }

    /// Whether this command answers with a stream of updates (multiple WRTE
    /// messages).
    pub fn is_streaming(&self) -> (r: bool)
        ensures
            r == (self@ is TrackDevices),
    {
        match self {
            HostCommand::TrackDevices => true,
            _ => false,
        }
    }
}

/// Parsing the service string of a host command gives the command back
/// (a transport command needs a non-empty serial).
pub proof fn lemma_parse_service_string(c: HostCommandSpec)
    requires
        c matches HostCommandSpec::Transport(serial) ==> serial.len() > 0,
    ensures
        spec_parse(spec_service_string(c)) == Ok::<HostCommandSpec, HostCommandErrorSpec>(c),
{
    reveal_strlit("host:");
    reveal_strlit("host:devices");
    reveal_strlit("host:devices-l");
    reveal_strlit("host:track-devices");
    reveal_strlit("host:transport-any");
    reveal_strlit("host:transport:");
    reveal_strlit("devices");
    reveal_strlit("devices-l");
    reveal_strlit("track-devices");
    reveal_strlit("transport-any");
    reveal_strlit("transport:");
    let s = spec_service_string(c);
    assert(s.subrange(0, 5) =~= "host:"@);
    let rest = s.skip(5);
    match c {
        HostCommandSpec::Devices => {
            assert(rest =~= "devices"@);
        },
        HostCommandSpec::DevicesLong => {
            assert(rest =~= "devices-l"@);
            assert(rest != "devices"@);
        },
        HostCommandSpec::TrackDevices => {
            assert(rest =~= "track-devices"@);
            assert(rest != "devices"@);
            assert(rest != "devices-l"@);
        },
        HostCommandSpec::TransportAny => {
            assert(rest =~= "transport-any"@);
            assert(rest != "devices"@);
            assert(rest != "devices-l"@);
            assert(rest != "track-devices"@) by {
                assert(rest[3] != "track-devices"@[3]);
            }
        },
        HostCommandSpec::Transport(serial) => {
            assert(rest =~= "transport:"@ + serial);
            assert(rest != "devices"@) by {
                assert(rest[0] != "devices"@[0]);
            }
            assert(rest != "devices-l"@) by {
                assert(rest[0] != "devices-l"@[0]);
            }
            assert(rest != "track-devices"@) by {
                assert(rest[3] != "track-devices"@[3]);
            }
            assert(rest != "transport-any"@) by {
                assert(rest[9] != "transport-any"@[9]);
            }
            assert(rest.subrange(0, 10) =~= "transport:"@);
            assert(rest.skip(10) =~= serial);
        },
    }
}

} // verus!
