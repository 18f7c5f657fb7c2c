//! The genesis artifact: the chain id and the public description of every
//! validator, and the bundle of private keys kept apart from it.

use crate::bytes::copy_range;
use crate::genesis::{views, DEFAULT_VOTING_POWER, PUBLIC_KEY_LEN};
use vstd::prelude::*;

verus! {

/// One validator as the artifact describes it.
pub struct ValidatorEntry {
    pub index: u64,
    pub public_key: Vec<u8>,
    pub voting_power: u64,
    pub in_genesis: bool,
}

/// What a `ValidatorEntry` holds.
pub struct ValidatorEntryView {
    pub index: u64,
    pub public_key: Seq<u8>,
    pub voting_power: u64,
    pub in_genesis: bool,
}

impl View for ValidatorEntry {
    type V = ValidatorEntryView;

    open spec fn view(&self) -> ValidatorEntryView {
        ValidatorEntryView {
            index: self.index,
            public_key: self.public_key@,
            voting_power: self.voting_power,
            in_genesis: self.in_genesis,
        }
    }
}

/// The public genesis configuration of a chain.
pub struct GenesisArtifact {
    pub chain_id: u32,
    pub validators: Vec<ValidatorEntry>,
}

/// What a `GenesisArtifact` holds.
pub struct GenesisArtifactView {
    pub chain_id: u32,
    pub validators: Seq<ValidatorEntryView>,
}

impl View for GenesisArtifact {
    type V = GenesisArtifactView;

    open spec fn view(&self) -> GenesisArtifactView {
        GenesisArtifactView {
            chain_id: self.chain_id,
            validators: self.validators@.map_values(|e: ValidatorEntry| e@),
        }
    }
}

/// The secret key of one validator.
pub struct PrivateKeyEntry {
    pub index: u64,
    pub secret: Vec<u8>,
}

/// The artifact of chain `chain_id` whose validators have the public keys
/// `keys`, in that order, each with the default voting power, and whose first
/// `num_genesis` validators are active at genesis.
pub open spec fn artifact_of(chain_id: u32, keys: Seq<Seq<u8>>, num_genesis: nat) -> GenesisArtifactView {
    GenesisArtifactView {
        chain_id,
        validators: Seq::new(
            keys.len(),
            |i: int|
                ValidatorEntryView {
                    index: i as u64,
                    public_key: keys[i],
                    voting_power: DEFAULT_VOTING_POWER,
                    in_genesis: i < num_genesis,
                },
        ),
    }
}

/// The indices of the validators of `a`.
pub open spec fn validator_indices(a: GenesisArtifactView) -> Set<int> {
    Set::new(
        |x: int| exists|i: int| 0 <= i < a.validators.len() && a.validators[i].index as int == x,
    )
}

/// The indices of the validators of `a` that are active at genesis.
pub open spec fn genesis_indices(a: GenesisArtifactView) -> Set<int> {
    Set::new(
        |x: int|
            exists|i: int|
                0 <= i < a.validators.len() && a.validators[i].index as int == x
                    && a.validators[i].in_genesis,
    )
}

/// Every public key of `a` has the artifact's key length.
pub open spec fn keys_well_sized(a: GenesisArtifactView) -> bool {
    forall|i: int|
        0 <= i < a.validators.len() ==> (#[trigger] a.validators[i]).public_key.len()
            == PUBLIC_KEY_LEN
}

/// Builds the artifact of chain `chain_id` for the validators with the public
/// keys `keys`, the first `num_genesis` of them active at genesis.
pub fn build_artifact(chain_id: u32, keys: &Vec<Vec<u8>>, num_genesis: usize) -> (r: GenesisArtifact)
    ensures
        r@ == artifact_of(chain_id, views(keys@), num_genesis as nat),
{
    let ghost target = artifact_of(chain_id, views(keys@), num_genesis as nat);
    let mut validators: Vec<ValidatorEntry> = Vec::new();
    let mut i: usize = 0;
    while i < keys.len()
        invariant
            i <= keys@.len(),
            target == artifact_of(chain_id, views(keys@), num_genesis as nat),
            validators@.len() == i,
            forall|j: int| 0 <= j < i ==> (#[trigger] validators@[j])@ == target.validators[j],
        decreases keys@.len() - i,
    {
        let key = copy_range(keys[i].as_slice(), 0, keys[i].len());
        assert(key@ =~= views(keys@)[i as int]);
        validators.push(
            ValidatorEntry {
                index: i as u64,
                public_key: key,
                voting_power: DEFAULT_VOTING_POWER,
                in_genesis: i < num_genesis,
            },
        );
        i = i + 1;
    }
    let r = GenesisArtifact { chain_id, validators };
    assert(r@.validators =~= target.validators);
    r
}

} // verus!
