//! Command line of the `aerogram` binary.

use vstd::prelude::*;

verus! {

/// Top-level command line of the `aerogram` binary.
#[derive(Debug)]
pub struct Cli {
    /// Subcommand to execute.
    pub command: Command,
}

/// Subcommands exposed by the binary.
#[derive(Debug)]
pub enum Command {
    /// Starts the server using the supplied configuration file.
    Start {
        /// Path to the TOML configuration file.
        config: String,
    },
    /// Generates a default configuration and the initial DKIM keypair.
    Init {
        /// Domain to bootstrap.
        domain: String,
        /// PostgreSQL URL to write into the generated configuration.
        postgres_url: String,
        /// Output path for the generated TOML configuration file.
        config_out: String,
    },
    /// Applies the database migrations against the configured PostgreSQL.
    Migrate {
        /// Path to the TOML configuration file.
        config: String,
    },
    /// Prints the binary version and exits.
    Version,
}

} // verus!
