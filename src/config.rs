//! The run's inputs: the zones with their domains and credentials, and the
//! command-line choices.

use vstd::prelude::*;
use vstd::string::*;

verus! {

/// The credentials of a zone: an API token.
#[derive(Debug, Clone, PartialEq, Eq)]
pub struct ZoneAuth {
    pub key: String,
}

/// A group of domains reconciled with one set of credentials.
#[derive(Debug, Clone, PartialEq, Eq)]
pub struct ZoneConfig {
    pub domains: Vec<String>,
    pub credentials: ZoneAuth,
}

/// The whole configuration: where the public address is asked, and the
/// zones.
#[derive(Debug, Clone, PartialEq, Eq)]
pub struct Config {
    pub ipserver: String,
    pub zones: Vec<ZoneConfig>,
}

/// The choices made on the command line: another configuration file, and
/// whether writes are only reported.
#[derive(Debug, Clone, PartialEq, Eq)]
pub struct Args {
    pub config: Option<String>,
    pub dry_run: bool,
}

impl Config {
    /// The template written where no configuration exists: one zone with an
    /// example key and two example domains.
    pub fn example() -> (r: Config)
        ensures
            r.ipserver@ == "https://api.ipify.org"@,
            r.zones@.len() == 1,
            r.zones@[0].credentials.key@ == "my_example_key"@,
            r.zones@[0].domains@.len() == 2,
            r.zones@[0].domains@[0]@ == "example.com"@,
            r.zones@[0].domains@[1]@ == "foo.example.com"@,
    {
        Config {
            ipserver: String::from_str("https://api.ipify.org"),
            zones: vec![
                ZoneConfig {
                    credentials: ZoneAuth { key: String::from_str("my_example_key") },
                    domains: vec![String::from_str("example.com"), String::from_str("foo.example.com")],
                },
            ],
        }
    }
}

} // verus!
