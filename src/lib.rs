//! Genesis configuration generator for proof-of-stake devnets.

pub mod artifact;
pub mod bytes;
pub mod cli;
pub mod codec;
pub mod commands;
pub mod crypto;
pub mod error;
pub mod genesis;
pub mod laws;

pub use cli::{Cli, Commands, GenesisCommands};
pub use commands::{execute, GenesisOutput};
pub use error::Error;
