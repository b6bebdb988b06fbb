//! Application configuration data, as plain values.  Loading it from
//! disk and from the command line is a collaborator's business; merging
//! the two sources is decided here.

use vstd::prelude::*;
use vstd::string::StringExecFns;

use crate::sv::Service;

verus! {

/// Configuration data.
#[derive(Debug)]
pub struct Config {
    /// Daemon mode.
    pub daemon: Option<Daemon>,
    /// Address resolution command.
    ///
    /// The command to be used in resolving the host's public IP address.
    pub resolver: Option<Resolver>,
    /// DNS provider services, in the order updates address them.
    pub services: Vec<Service>,
}

/// Resolver command.
#[derive(Debug)]
pub struct Resolver(pub String);

/// The resolver command used when none is configured.
pub open spec fn default_resolver_text() -> Seq<char> {
    "dig @resolver4.opendns.com myip.opendns.com +short"@
}

impl Resolver {
    /// Wraps a command string.
    pub fn new(cmd: String) -> (r: Resolver)
        ensures
            r.0@ == cmd@,
    {
        Resolver(cmd)
    }

    /// The command text.
    pub fn as_str(&self) -> (r: &str)
        ensures
            r@ == self.0@,
    {
        self.0.as_str()
    }
}

impl Default for Resolver {
    /// The default resolver, querying `opendns.com`.
    fn default() -> (r: Resolver)
        ensures
            r.0@ == default_resolver_text(),
    {
        Resolver(String::from_str("dig @resolver4.opendns.com myip.opendns.com +short"))
    }
}

/// Daemon configuration.
#[derive(Clone, Copy, Debug, PartialEq, Eq, Structural)]
pub struct Daemon {
    /// Time units after which DNS must be re-synced.
    pub timeout: u64,
}

impl Config {
    /// Combines two configuration instances.
    ///
    /// This is useful when some configurations may also be supplied on
    /// the command line.  When merging, options from the command line
    /// take priority over those saved on disk, so data already in `self`
    /// is kept where it conflicts with `other`.
    pub fn merge(&mut self, other: Config)
        ensures
            final(self).daemon == other.daemon,
            final(self).resolver == if old(self).resolver is Some {
                old(self).resolver
            } else {
                other.resolver
            },
            final(self).services == other.services,
    {
        let Config { daemon, resolver, services } = other;
        self.daemon = daemon;
        self.resolver = match self.resolver.take() {
            Some(r) => Some(r),
            None => resolver,
        };
        self.services = services;
    }
}

/// An error caused by loading configuration.
#[derive(Clone, Copy, Debug, PartialEq, Eq, Structural)]
pub enum Error {
    /// The configuration file could not be read.
    Read,
    /// The configuration file could not be parsed.
    Parse,
}

} // verus!
