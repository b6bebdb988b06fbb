//! An earlier revision of the configuration surface, kept for loaders
//! that still speak it.

use vstd::prelude::*;
use vstd::string::StringExecFns;

use crate::cfg::default_resolver_text;
use crate::sv::Service;

verus! {

/// App configuration.
#[derive(Debug)]
pub struct Conf {
    /// Daemon mode.
    pub daemon: Option<Daemon>,
    /// Public IP address resolver command.
    pub resolver: String,
    /// DNS provider services.
    pub services: Vec<Service>,
}

impl Conf {
    /// Default resolver using `opendns.com`.
    pub fn resolver() -> (r: String)
        ensures
            r@ == default_resolver_text(),
    {
        String::from_str("dig @resolver4.opendns.com myip.opendns.com +short")
    }
}

/// Daemon configuration.
#[derive(Clone, Copy, Debug, PartialEq, Eq, Structural)]
pub struct Daemon {
    /// Time units after which DNS must be re-synced.
    pub timeout: u64,
}

} // verus!
