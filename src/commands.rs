//! Runs a command and hands back what is to be written.

use crate::artifact::artifact_of;
use crate::cli::{Commands, GenesisCommands};
use crate::codec::{artifact_bytes, bundle_bytes, encode_artifact, encode_private_keys};
use crate::bytes::le_bytes;
use crate::error::Error;
use crate::genesis::{
    all_derivable, counts_valid, derived_bundle, derived_keys, from_pub_error_explained,
    generate_from_pub, generate_random, keys_distinct, random_error_explained, record_count,
    record_keys, records_valid, DEFAULT_CHAIN_ID,
};
use vstd::prelude::*;
use vstd::utf8::encode_utf8;

verus! {

/// What a successful run produces.
pub struct GenesisOutput {
    /// A line for the operator.
    pub message: String,
    /// The bytes of the genesis artifact.
    pub artifact: Vec<u8>,
    /// The bytes of the private-key bundle, in seeded random mode only.
    pub private_keys: Option<Vec<u8>>,
}

/// `r` is what a run of seeded random mode owes for the seed `seed`, `n`
/// validators, `k` of them at genesis, and chain `chain_id`.
pub open spec fn random_run(
    seed: Seq<char>,
    n: nat,
    k: nat,
    chain_id: u32,
    r: Result<GenesisOutput, Error>,
) -> bool {
    let bytes = encode_utf8(seed);
    &&& r is Ok <==> counts_valid(n, k) && all_derivable(bytes, n) && keys_distinct(
        derived_keys(bytes, n),
    )
    &&& r matches Ok(o) ==> {
        &&& o.artifact@ == artifact_bytes(artifact_of(chain_id, derived_keys(bytes, n), k))
        &&& o.private_keys matches Some(p) && p@ == le_bytes(n, 8) + bundle_bytes(
            derived_bundle(bytes, n),
        )
    }
    &&& r matches Err(e) ==> random_error_explained(bytes, n, k, e)
}

/// `r` is what a run of from-public-keys mode owes for the file `text`.
pub open spec fn from_pub_run(text: Seq<u8>, r: Result<GenesisOutput, Error>) -> bool {
    let n = record_count(text.len());
    &&& r is Ok <==> records_valid(text, n) && n > 0 && keys_distinct(record_keys(text, n))
    &&& r matches Ok(o) ==> o.artifact@ == artifact_bytes(
        artifact_of(DEFAULT_CHAIN_ID, record_keys(text, n), n),
    ) && o.private_keys is None
    &&& r matches Err(e) ==> from_pub_error_explained(text, e)
}

/// Runs `command`.
pub fn execute(command: Commands) -> (r: Result<GenesisOutput, Error>)
    ensures
        match command {
            Commands::Genesis { subcommand } => match subcommand {
                GenesisCommands::Random {
                    initial_seed,
                    num_validator,
                    num_genesis_validator,
                    chain_id,
                } => random_run(
                    initial_seed@,
                    num_validator as nat,
                    num_genesis_validator as nat,
                    chain_id,
                    r,
                ),
                GenesisCommands::FromPub { initial_seed, pkfile } => from_pub_run(pkfile@, r),
            },
        },
{
    match command {
        Commands::Genesis { subcommand } => match subcommand {
            GenesisCommands::Random {
                initial_seed,
                num_validator,
                num_genesis_validator,
                chain_id,
            } => {
                let g = generate_random(
                    initial_seed.as_str(),
                    num_validator,
                    num_genesis_validator,
                    chain_id,
                )?;
                let artifact = encode_artifact(&g.artifact)?;
                let private_keys = encode_private_keys(&g.private_keys);
                Ok(
                    GenesisOutput {
                        message: "Generated genesis configuration and private keys".to_owned(),
                        artifact,
                        private_keys: Some(private_keys),
                    },
                )
            },
            GenesisCommands::FromPub { initial_seed: _, pkfile } => {
                let a = generate_from_pub(pkfile.as_slice())?;
                let artifact = encode_artifact(&a)?;
                Ok(
                    GenesisOutput {
                        message: "Generated genesis configuration from public keys".to_owned(),
                        artifact,
                        private_keys: None,
                    },
                )
            },
        },
    }
}

} // verus!
