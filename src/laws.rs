//! Properties that hold across runs of the generator.

use crate::artifact::{artifact_of, genesis_indices, validator_indices};
use crate::commands::{random_run, GenesisOutput};
use crate::error::Error;
use crate::genesis::{
    all_derivable, derived_bundle, derived_keys, keys_distinct, random_error_explained,
    validator_public,
};
use vstd::prelude::*;
use vstd::set_lib::{lemma_int_range, set_int_range};

verus! {

/// Two runs of seeded random mode on the same seed, counts and chain id agree:
/// both succeed or both fail, on success they produce the same artifact bytes
/// and the same private-key bundle bytes, and on failure the same error.
pub proof fn lemma_random_deterministic(
    seed: Seq<char>,
    n: nat,
    k: nat,
    chain_id: u32,
    r1: Result<GenesisOutput, Error>,
    r2: Result<GenesisOutput, Error>,
)
    requires
        random_run(seed, n, k, chain_id, r1),
        random_run(seed, n, k, chain_id, r2),
    ensures
        r1 is Ok <==> r2 is Ok,
        r1 is Ok ==> r1->Ok_0.artifact@ == r2->Ok_0.artifact@,
        r1 is Ok ==> r1->Ok_0.private_keys->0@ == r2->Ok_0.private_keys->0@,
        r1 is Err ==> r1->Err_0 == r2->Err_0,
{
    if r1 is Err {
        let bytes = vstd::utf8::encode_utf8(seed);
        let keys = derived_keys(bytes, n);
        let (e1, e2) = (r1->Err_0, r2->Err_0);
        assert(random_error_explained(bytes, n, k, e1));
        assert(random_error_explained(bytes, n, k, e2));
        match (e1, e2) {
            (
                Error::KeyDerivation { index: i1 },
                Error::KeyDerivation { index: i2 },
            ) => {
                if i1 < i2 {
                    assert(validator_public(bytes, i1 as nat) is Some);
                }
                if i2 < i1 {
                    assert(validator_public(bytes, i2 as nat) is Some);
                }
            },
            (Error::KeyDerivation { index }, Error::DuplicateKey { .. }) => {
                assert(validator_public(bytes, index as nat) is Some);
            },
            (Error::DuplicateKey { .. }, Error::KeyDerivation { index }) => {
                assert(validator_public(bytes, index as nat) is Some);
            },
            (
                Error::DuplicateKey { first: f1, second: s1 },
                Error::DuplicateKey { first: f2, second: s2 },
            ) => {
                if s1 < s2 {
                    assert(keys.take(s2 as int)[f1 as int] == keys.take(s2 as int)[s1 as int]);
                }
                if s2 < s1 {
                    assert(keys.take(s1 as int)[f2 as int] == keys.take(s1 as int)[s2 as int]);
                }
            },
            _ => {},
        }
    }
}

/// Deriving more validators from a seed extends the validators derived
/// before: the first `n1` of `n2` validators have the same public and private
/// keys as a run of `n1`, and a run of `n2` that succeeds means one of `n1`
/// succeeds as well.
pub proof fn lemma_extension(seed: Seq<u8>, n1: nat, n2: nat)
    requires
        n1 <= n2,
    ensures
        derived_keys(seed, n1) == derived_keys(seed, n2).take(n1 as int),
        derived_bundle(seed, n1) == derived_bundle(seed, n2).take(n1 as int),
        all_derivable(seed, n2) ==> all_derivable(seed, n1),
        keys_distinct(derived_keys(seed, n2)) ==> keys_distinct(derived_keys(seed, n1)),
{
    assert(derived_keys(seed, n1) =~= derived_keys(seed, n2).take(n1 as int));
    assert(derived_bundle(seed, n1) =~= derived_bundle(seed, n2).take(n1 as int));
    if keys_distinct(derived_keys(seed, n2)) {
        assert forall|i: int, j: int| 0 <= i < j < n1 implies derived_keys(seed, n1)[i]
            != derived_keys(seed, n1)[j] by {
            assert(derived_keys(seed, n1)[i] == derived_keys(seed, n2)[i]);
            assert(derived_keys(seed, n1)[j] == derived_keys(seed, n2)[j]);
        }
    }
    if all_derivable(seed, n2) {
        assert forall|i: nat| i < n1 implies (#[trigger] validator_public(seed, i)) is Some by {
            assert(validator_public(seed, i) is Some);
        }
    }
}

/// The validators of an artifact are indexed `0` to `n - 1`; its genesis
/// validators are validators of it, and they are exactly the `k`
/// lowest-indexed ones.
pub proof fn lemma_genesis_subset(chain_id: u32, keys: Seq<Seq<u8>>, k: nat)
    requires
        k <= keys.len() <= u64::MAX,
    ensures
        genesis_indices(artifact_of(chain_id, keys, k)).subset_of(
            validator_indices(artifact_of(chain_id, keys, k)),
        ),
        genesis_indices(artifact_of(chain_id, keys, k)) == set_int_range(0, k as int),
        genesis_indices(artifact_of(chain_id, keys, k)).len() == k,
        validator_indices(artifact_of(chain_id, keys, k)) == set_int_range(0, keys.len() as int),
{
    let a = artifact_of(chain_id, keys, k);
    assert forall|x: int| #[trigger] validator_indices(a).contains(x) <==> set_int_range(
        0,
        keys.len() as int,
    ).contains(x) by {
        if 0 <= x < keys.len() {
            assert(a.validators[x].index == x);
        }
    }
    assert(validator_indices(a) =~= set_int_range(0, keys.len() as int));
    assert forall|x: int| #[trigger] genesis_indices(a).contains(x) <==> set_int_range(
        0,
        k as int,
    ).contains(x) by {
        if 0 <= x < k {
            assert(a.validators[x].index == x);
        }
    }
    assert(genesis_indices(a) =~= set_int_range(0, k as int));
    lemma_int_range(0, k as int);
}

/// When the keys handed to an artifact are pairwise distinct, no two of its
/// validators share a public key.
pub proof fn lemma_artifact_keys_distinct(chain_id: u32, keys: Seq<Seq<u8>>, k: nat)
    requires
        keys_distinct(keys),
    ensures
        forall|i: int, j: int|
            0 <= i < j < keys.len() ==> (#[trigger] artifact_of(chain_id, keys, k).validators[i]).public_key
                != (#[trigger] artifact_of(chain_id, keys, k).validators[j]).public_key,
{
}

} // verus!
