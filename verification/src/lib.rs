//! A dynamic-DNS update agent's core: resolving the host's public address
//! through a configured external command, building per-provider DNS update
//! requests, validating provider responses, and driving one-shot or daemon
//! update cycles with per-provider failure isolation.

pub mod addr;
pub mod cfg;
pub mod cli;
pub mod conf;
pub mod err;
pub mod orch;
pub mod resolver;
pub mod sched;
pub mod sv;
