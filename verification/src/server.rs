//! Composition root: the runnable server, its builder and the graceful
//! shutdown signal.

use vstd::prelude::*;

use crate::config::Config;

verus! {

/// Top-level runnable server.
#[derive(Debug)]
pub struct Server {
    _config: Config,
}

impl View for Server {
    type V = Config;

    /// The configuration the server was built from.
    closed spec fn view(&self) -> Config {
        self._config
    }
}

impl Server {
    /// Builds the server from a parsed [`Config`].
    pub fn from_config(config: Config) -> (server: Self)
        ensures
            server@ == config,
    {
        Server { _config: config }
    }
}

/// Builder that produces a [`Server`] from a configuration file path.
#[derive(Debug, Default)]
pub struct ServerBuilder;

/// Holder for the lifecycle hooks exposed by the server.
#[derive(Debug, Default)]
pub struct Lifecycle;

/// Graceful shutdown signal, driven by `SIGINT` or `SIGTERM`.
#[derive(Debug, Clone, Copy, Default)]
pub struct ShutdownSignal {
    _placeholder: (),
}

impl ShutdownSignal {
    /// Creates a new shutdown signal.
    pub fn new() -> (signal: Self) {
        ShutdownSignal { _placeholder: () }
    }

    /// Triggers the shutdown. The signal carries no state yet, so triggering
    /// it has no observable effect.
    pub fn shutdown(&self) {
    }
}

} // verus!
