//! The requests the tool accepts.

use vstd::prelude::*;

verus! {

/// A parsed command line.
pub struct Cli {
    pub command: Commands,
}

/// The tool's commands.
pub enum Commands {
    /// Generate a proof-of-stake genesis configuration.
    Genesis { subcommand: GenesisCommands },
}

/// The two ways of generating a genesis configuration.
pub enum GenesisCommands {
    /// Derive every validator's keys from a seed.
    Random {
        /// Seed of the key derivation.
        initial_seed: String,
        /// Number of validators.
        num_validator: usize,
        /// Number of validators active at genesis: the first ones.
        num_genesis_validator: usize,
        /// Chain the configuration is for.
        chain_id: u32,
    },
    /// Take the validators' public keys from a file.
    FromPub {
        /// Seed of the run; no choice of this mode draws on it.
        initial_seed: String,
        /// The contents of the public-key file: one key per line, as 128
        /// hexadecimal digits.
        pkfile: Vec<u8>,
    },
}

} // verus!
