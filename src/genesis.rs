//! The genesis engine: validator keys from a seed or from a public-key file,
//! the genesis validator set, and the artifact that describes them.

use crate::bytes::{
    copy_range, decode_hex, hex_decoded, is_hex_text, le_bytes, push_le, same_bytes,
};
use crate::crypto::{
    is_secp256k1_point, is_valid_public_key, keccak256, keccak256_of, public_key_of_secret,
    secp256k1_public_of,
};
use crate::artifact::{
    artifact_of, build_artifact, keys_well_sized, GenesisArtifact, PrivateKeyEntry,
};
use crate::codec::bundle_view;
use crate::error::Error;
use vstd::prelude::*;
use vstd::string::StringSliceAdditionalSpecFns;

verus! {

/// Length of a public key in the artifact: the two 32-byte coordinates of the
/// point, without the SEC1 tag.
pub const PUBLIC_KEY_LEN: usize = 64;

/// SEC1 tag of an uncompressed point.
pub const UNCOMPRESSED_TAG: u8 = 4;

/// Number of hexadecimal digits of a record of the public-key file.
pub const RECORD_DIGITS: usize = 128;

/// Number of bytes from the start of one record to the start of the next: the
/// digits and a newline.
pub const RECORD_STRIDE: usize = 129;

/// Chain id of an artifact built from a public-key file.
pub const DEFAULT_CHAIN_ID: u32 = 0;

/// Voting power that every validator receives at genesis.
pub const DEFAULT_VOTING_POWER: u64 = 1;

/// The secret key of validator `index`: the digest of the seed's digest
/// followed by the index as 8 little-endian bytes.
pub open spec fn validator_secret(seed: Seq<u8>, index: nat) -> Seq<u8> {
    keccak256_of(keccak256_of(seed) + le_bytes(index, 8))
}

/// The public key of validator `index` (the coordinates of the point), or
/// `None` when the derived secret is not a valid key.
pub open spec fn validator_public(seed: Seq<u8>, index: nat) -> Option<Seq<u8>> {
    match secp256k1_public_of(validator_secret(seed, index)) {
        Some(p) => Some(p.drop_first()),
        None => None,
    }
}

/// Whether every one of the first `n` validators of `seed` has a key.
pub open spec fn all_derivable(seed: Seq<u8>, n: nat) -> bool {
    forall|i: nat| i < n ==> (#[trigger] validator_public(seed, i)) is Some
}

/// The public keys of the first `n` validators of `seed`.
pub open spec fn derived_keys(seed: Seq<u8>, n: nat) -> Seq<Seq<u8>> {
    Seq::new(n, |i: int| validator_public(seed, i as nat)->0)
}

/// The byte sequences held by `v`.
pub open spec fn views(v: Seq<Vec<u8>>) -> Seq<Seq<u8>> {
    v.map_values(|x: Vec<u8>| x@)
}

/// No two of `keys` are equal.
pub open spec fn keys_distinct(keys: Seq<Seq<u8>>) -> bool {
    forall|i: int, j: int| 0 <= i < j < keys.len() ==> keys[i] != keys[j]
}

/// `(first, second)` is the earliest repeated key of `keys`: `second` is the
/// lowest position whose key occurs before it, and `first` the lowest earlier
/// position with that key.
pub open spec fn first_duplicate(keys: Seq<Seq<u8>>, first: int, second: int) -> bool {
    &&& 0 <= first < second < keys.len()
    &&& keys[first] == keys[second]
    &&& keys_distinct(keys.take(second))
    &&& forall|a: int| 0 <= a < first ==> keys[a] != keys[second]
}

/// Derives the secret key of validator `index` from the digest of the seed.
pub fn derive_secret(seed_digest: &[u8], index: usize) -> (r: Vec<u8>)
    ensures
        r@ == keccak256_of(seed_digest@ + le_bytes(index as nat, 8)),
        r@.len() == 32,
{
    let mut input = copy_range(seed_digest, 0, seed_digest.len());
    push_le(&mut input, index as u64, 8);
    assert(input@ == seed_digest@ + le_bytes(index as nat, 8));
    keccak256(input.as_slice())
}

/// Derives the secret and public keys of the first `n` validators of `seed`.
/// Validator `i` depends on the seed and `i` alone.
pub fn derive_validator_keys(seed: &[u8], n: usize) -> (r: Result<
    (Vec<Vec<u8>>, Vec<Vec<u8>>),
    Error,
>)
    ensures
        r is Ok <==> all_derivable(seed@, n as nat),
        r matches Ok((secrets, publics)) ==> {
            &&& secrets@.len() == n
            &&& forall|i: int|
                0 <= i < n ==> #[trigger] secrets@[i]@ == validator_secret(seed@, i as nat)
            &&& views(publics@) == derived_keys(seed@, n as nat)
            &&& forall|i: int| 0 <= i < n ==> (#[trigger] publics@[i])@.len() == PUBLIC_KEY_LEN
        },
        r matches Err(e) ==> e matches Error::KeyDerivation { index } && index < n
            && validator_public(seed@, index as nat) is None && all_derivable(seed@, index as nat),
{
    let digest = keccak256(seed);
    let mut secrets: Vec<Vec<u8>> = Vec::new();
    let mut publics: Vec<Vec<u8>> = Vec::new();
    let mut i: usize = 0;
    while i < n
        invariant
            i <= n,
            digest@ == keccak256_of(seed@),
            secrets@.len() == i,
            forall|j: int| 0 <= j < i ==> #[trigger] secrets@[j]@ == validator_secret(seed@, j as nat),
            views(publics@) == derived_keys(seed@, i as nat),
            forall|j: int| 0 <= j < i ==> (#[trigger] publics@[j])@.len() == PUBLIC_KEY_LEN,
            all_derivable(seed@, i as nat),
        decreases n - i,
    {
        let secret = derive_secret(digest.as_slice(), i);
        match public_key_of_secret(secret.as_slice()) {
            None => {
                return Err(Error::KeyDerivation { index: i });
            },
            Some(p) => {
                let key = copy_range(p.as_slice(), 1, p.len());
                assert(key@ =~= p@.drop_first());
                assert(validator_public(seed@, i as nat) == Some(key@));
                let ghost before = publics@;
                assert(views(before).len() == before.len());
                secrets.push(secret);
                publics.push(key);
                i = i + 1;
                assert(views(publics@) =~= derived_keys(seed@, i as nat)) by {
                    assert forall|k: int| 0 <= k < i implies views(publics@)[k] == derived_keys(
                        seed@,
                        i as nat,
                    )[k] by {
                        if k < i - 1 {
                            assert(publics@[k] == before[k]);
                            assert(views(before)[k] == derived_keys(seed@, (i - 1) as nat)[k]);
                        }
                    }
                }
                assert(all_derivable(seed@, i as nat)) by {
                    assert forall|j: nat| j < i implies (#[trigger] validator_public(seed@, j)) is Some by {
                        if j < i - 1 {
                            assert(validator_public(seed@, j) is Some);
                        }
                    }
                }
            },
        }
    }
    Ok((secrets, publics))
}

/// Finds the earliest repeated key of `keys`, if any.
pub fn find_duplicate(keys: &Vec<Vec<u8>>) -> (r: Option<(usize, usize)>)
    ensures
        r is None <==> keys_distinct(views(keys@)),
        r matches Some((first, second)) ==> first_duplicate(
            views(keys@),
            first as int,
            second as int,
        ),
{
    let ghost ks = views(keys@);
    let mut j: usize = 0;
    while j < keys.len()
        invariant
            ks == views(keys@),
            j <= keys@.len(),
            keys_distinct(ks.take(j as int)),
        decreases keys@.len() - j,
    {
        let mut i: usize = 0;
        while i < j
            invariant
                ks == views(keys@),
                i <= j < keys@.len(),
                keys_distinct(ks.take(j as int)),
                forall|a: int| 0 <= a < i ==> ks[a] != ks[j as int],
            decreases j - i,
        {
            if same_bytes(keys[i].as_slice(), keys[j].as_slice()) {
                assert(ks[i as int] == ks[j as int]);
                return Some((i, j));
            }
            assert(ks[i as int] == keys@[i as int]@);
            i = i + 1;
        }
        j = j + 1;
        assert(keys_distinct(ks.take(j as int))) by {
            assert forall|a: int, b: int| 0 <= a < b < j implies ks.take(j as int)[a] != ks.take(
                j as int,
            )[b] by {
                if b < j - 1 {
                    assert(ks.take(j - 1)[a] == ks[a]);
                    assert(ks.take(j - 1)[b] == ks[b]);
                }
            }
        }
    }
    assert(ks.take(j as int) =~= ks);
    None
}

/// Number of records of a public-key file of `len` bytes: one per started
/// line, a final newline starting none.
pub open spec fn record_count(len: nat) -> nat {
    (len + 128) / 129
}

/// Start of record `i`.
pub open spec fn record_start(i: nat) -> int {
    (129 * i) as int
}

/// Record `i` of `text` is 128 hexadecimal digits followed by a newline or by
/// the end of the text.
pub open spec fn record_well_formed(text: Seq<u8>, i: nat) -> bool {
    let s = record_start(i);
    &&& s + 128 <= text.len()
    &&& s + 128 == text.len() || text[s + 128] == 10
    &&& is_hex_text(text.subrange(s, s + 128))
}

/// The 64 bytes that record `i` of `text` encodes.
pub open spec fn record_key(text: Seq<u8>, i: nat) -> Seq<u8> {
    hex_decoded(text.subrange(record_start(i), record_start(i) + 128))
}

/// Record `i` of `text` is well formed and encodes a point of the curve.
pub open spec fn record_valid(text: Seq<u8>, i: nat) -> bool {
    record_well_formed(text, i) && is_secp256k1_point(seq![UNCOMPRESSED_TAG] + record_key(text, i))
}

/// The first `n` records of `text` are valid.
pub open spec fn records_valid(text: Seq<u8>, n: nat) -> bool {
    forall|i: nat| i < n ==> #[trigger] record_valid(text, i)
}

/// The keys of the first `n` records of `text`.
pub open spec fn record_keys(text: Seq<u8>, n: nat) -> Seq<Seq<u8>> {
    Seq::new(n, |i: int| record_key(text, i as nat))
}

/// Reads the public keys of a public-key file: one key per line, as 128
/// hexadecimal digits (the two coordinates of the point). Fails on the first
/// record that is malformed or that is not a point of the curve.
pub fn parse_public_keys(text: &[u8]) -> (r: Result<Vec<Vec<u8>>, Error>)
    ensures
        r is Ok <==> records_valid(text@, record_count(text@.len())),
        r matches Ok(keys) ==> views(keys@) == record_keys(text@, record_count(text@.len())),
        r matches Err(e) ==> match e {
            Error::Parse { line } => line < record_count(text@.len()) && records_valid(
                text@,
                line as nat,
            ) && !record_well_formed(text@, line as nat),
            Error::Decode { line } => line < record_count(text@.len()) && records_valid(
                text@,
                line as nat,
            ) && record_well_formed(text@, line as nat) && !record_valid(text@, line as nat),
            _ => false,
        },
{
    let len: usize = text.len();
    let ghost count = record_count(len as nat);
    let mut keys: Vec<Vec<u8>> = Vec::new();
    let mut off: usize = 0;
    let mut i: usize = 0;
    while off < len
        invariant
            len == text@.len(),
            count == record_count(len as nat),
            off == record_start(i as nat),
            off <= len,
            i <= count,
            off < len ==> i < count,
            off == len ==> i == count,
            records_valid(text@, i as nat),
            views(keys@) == record_keys(text@, i as nat),
        decreases len - off,
    {
        assert(i < count) by (nonlinear_arith)
            requires
                off == 129 * i,
                off < len,
                count == (len + 128) / 129,
        ;
        if len - off < RECORD_DIGITS {
            assert(!record_valid(text@, i as nat));
            return Err(Error::Parse { line: i });
        }
        let last = len - off == RECORD_DIGITS;
        if !last && text[off + RECORD_DIGITS] != 10 {
            assert(!record_valid(text@, i as nat));
            return Err(Error::Parse { line: i });
        }
        let key = match decode_hex(text, off, RECORD_DIGITS) {
            Some(k) => k,
            None => {
                assert(!record_valid(text@, i as nat));
            return Err(Error::Parse { line: i });
            },
        };
        let mut point: Vec<u8> = vec![UNCOMPRESSED_TAG];
        let mut extra = copy_range(key.as_slice(), 0, key.len());
        point.append(&mut extra);
        assert(point@ =~= seq![UNCOMPRESSED_TAG] + record_key(text@, i as nat));
        if !is_valid_public_key(point.as_slice()) {
            assert(!record_valid(text@, i as nat));
            return Err(Error::Decode { line: i });
        }
        let ghost before = keys@;
        assert(views(before).len() == before.len());
        keys.push(key);
        proof {
            assert forall|j: nat| j < i + 1 implies #[trigger] record_valid(text@, j) by {
                if j < i {
                    assert(record_valid(text@, j));
                }
            }
            assert forall|k: int| 0 <= k < i + 1 implies views(keys@)[k] == record_keys(
                text@,
                (i + 1) as nat,
            )[k] by {
                if k < i {
                    assert(keys@[k] == before[k]);
                    assert(views(before)[k] == record_keys(text@, i as nat)[k]);
                }
            }
            assert(views(keys@) =~= record_keys(text@, (i + 1) as nat));
        }
        if last {
            assert(i + 1 == count) by (nonlinear_arith)
                requires
                    off == 129 * i,
                    off + 128 == len,
                    count == (len + 128) / 129,
            ;
            return Ok(keys);
        }
        off = off + RECORD_STRIDE;
        i = i + 1;
        assert(off < len ==> i < count) by (nonlinear_arith)
            requires
                off == 129 * i,
                count == (len + 128) / 129,
        ;
        assert(off == len ==> i == count) by (nonlinear_arith)
            requires
                off == 129 * i,
                count == (len + 128) / 129,
        ;
    }
    Ok(keys)
}

/// The validator counts of a run are usable: at least one genesis validator,
/// and no more genesis validators than validators.
pub open spec fn counts_valid(num_validator: nat, num_genesis_validator: nat) -> bool {
    1 <= num_genesis_validator <= num_validator
}

/// The index and secret key of each of the first `n` validators of `seed`.
pub open spec fn derived_bundle(seed: Seq<u8>, n: nat) -> Seq<(u64, Seq<u8>)> {
    Seq::new(n, |i: int| (i as u64, validator_secret(seed, i as nat)))
}

/// `e` is the error that seeded random mode owes for the seed bytes `seed`
/// and the counts `n` and `k`: bad counts, else the first validator whose key
/// cannot be derived, else the earliest repeated key.
pub open spec fn random_error_explained(seed: Seq<u8>, n: nat, k: nat, e: Error) -> bool {
    match e {
        Error::InvalidParameter { num_validator, num_genesis_validator } => num_validator == n
            && num_genesis_validator == k && !counts_valid(n, k),
        Error::KeyDerivation { index } => counts_valid(n, k) && index < n && validator_public(
            seed,
            index as nat,
        ) is None && all_derivable(seed, index as nat),
        Error::DuplicateKey { first, second } => counts_valid(n, k) && all_derivable(seed, n)
            && first_duplicate(derived_keys(seed, n), first as int, second as int),
        _ => false,
    }
}

/// `e` is the error that from-public-keys mode owes for the file `text`: the
/// first bad record, else an empty file, else the earliest repeated key.
pub open spec fn from_pub_error_explained(text: Seq<u8>, e: Error) -> bool {
    let n = record_count(text.len());
    match e {
        Error::Parse { line } => line < n && records_valid(text, line as nat) && !record_well_formed(
            text,
            line as nat,
        ),
        Error::Decode { line } => line < n && records_valid(text, line as nat) && record_well_formed(
            text,
            line as nat,
        ) && !record_valid(text, line as nat),
        Error::InvalidParameter { num_validator, num_genesis_validator } => num_validator == 0
            && num_genesis_validator == 0 && n == 0,
        Error::DuplicateKey { first, second } => records_valid(text, n) && first_duplicate(
            record_keys(text, n),
            first as int,
            second as int,
        ),
        _ => false,
    }
}

/// The outcome of a run in seeded random mode.
pub struct RandomGenesis {
    pub artifact: GenesisArtifact,
    pub private_keys: Vec<PrivateKeyEntry>,
}

/// Runs seeded random mode: derives `num_validator` validators from the seed,
/// the first `num_genesis_validator` of them active at genesis, for chain
/// `chain_id`. The counts are checked before any key is derived.
pub fn generate_random(
    seed: &str,
    num_validator: usize,
    num_genesis_validator: usize,
    chain_id: u32,
) -> (r: Result<RandomGenesis, Error>)
    ensures
        !counts_valid(num_validator as nat, num_genesis_validator as nat) ==> r == Err::<
            RandomGenesis,
            Error,
        >(Error::InvalidParameter { num_validator, num_genesis_validator }),
        counts_valid(num_validator as nat, num_genesis_validator as nat) ==> (r is Ok <==> (
        all_derivable(seed.spec_bytes(), num_validator as nat) && keys_distinct(
            derived_keys(seed.spec_bytes(), num_validator as nat),
        ))),
        r matches Ok(g) ==> {
            &&& keys_well_sized(g.artifact@)
            &&& g.artifact@ == artifact_of(
                chain_id,
                derived_keys(seed.spec_bytes(), num_validator as nat),
                num_genesis_validator as nat,
            )
            &&& bundle_view(g.private_keys@) == derived_bundle(
                seed.spec_bytes(),
                num_validator as nat,
            )
        },
        r matches Err(e) ==> random_error_explained(
            seed.spec_bytes(),
            num_validator as nat,
            num_genesis_validator as nat,
            e,
        ),
{
    if num_genesis_validator < 1 || num_genesis_validator > num_validator {
        return Err(Error::InvalidParameter { num_validator, num_genesis_validator });
    }
    let seed_bytes = seed.as_bytes();
    let (secrets, publics) = match derive_validator_keys(seed_bytes, num_validator) {
        Ok(keys) => keys,
        Err(e) => {
            return Err(e);
        },
    };
    if let Some((first, second)) = find_duplicate(&publics) {
        return Err(Error::DuplicateKey { first, second });
    }
    let artifact = build_artifact(chain_id, &publics, num_genesis_validator);
    assert(keys_well_sized(artifact@)) by {
        assert forall|i: int| 0 <= i < artifact@.validators.len() implies (
        #[trigger] artifact@.validators[i]).public_key.len() == PUBLIC_KEY_LEN by {
            assert(artifact@.validators[i].public_key == views(publics@)[i]);
        }
    }
    let ghost target = derived_bundle(seed.spec_bytes(), num_validator as nat);
    let mut private_keys: Vec<PrivateKeyEntry> = Vec::new();
    let mut i: usize = 0;
    while i < secrets.len()
        invariant
            secrets@.len() == num_validator,
            i <= num_validator,
            target == derived_bundle(seed.spec_bytes(), num_validator as nat),
            forall|j: int|
                0 <= j < num_validator ==> #[trigger] secrets@[j]@ == validator_secret(
                    seed.spec_bytes(),
                    j as nat,
                ),
            bundle_view(private_keys@) == target.take(i as int),
        decreases num_validator - i,
    {
        let secret = copy_range(secrets[i].as_slice(), 0, secrets[i].len());
        let ghost before = private_keys@;
        assert(bundle_view(before).len() == before.len());
        private_keys.push(PrivateKeyEntry { index: i as u64, secret });
        i = i + 1;
        assert forall|k: int| 0 <= k < i implies bundle_view(private_keys@)[k] == target.take(
            i as int,
        )[k] by {
            if k < i - 1 {
                assert(private_keys@[k] == before[k]);
                assert(bundle_view(before)[k] == target.take(i - 1)[k]);
            }
        }
        assert(bundle_view(private_keys@) =~= target.take(i as int));
    }
    assert(target.take(i as int) =~= target);
    Ok(RandomGenesis { artifact, private_keys })
}

/// Runs from-public-keys mode on the text of a public-key file: one validator
/// per record, in file order, all of them active at genesis, for the default
/// chain id.
pub fn generate_from_pub(text: &[u8]) -> (r: Result<GenesisArtifact, Error>)
    ensures
        r is Ok <==> {
            let n = record_count(text@.len());
            &&& records_valid(text@, n)
            &&& n > 0
            &&& keys_distinct(record_keys(text@, n))
        },
        r matches Ok(a) ==> keys_well_sized(a@),
        r matches Ok(a) ==> a@ == artifact_of(
            DEFAULT_CHAIN_ID,
            record_keys(text@, record_count(text@.len())),
            record_count(text@.len()),
        ),
        r matches Err(e) ==> from_pub_error_explained(text@, e),
{
    let keys = match parse_public_keys(text) {
        Ok(keys) => keys,
        Err(e) => {
            return Err(e);
        },
    };
    assert(views(keys@).len() == keys@.len());
    if keys.len() == 0 {
        return Err(Error::InvalidParameter { num_validator: 0, num_genesis_validator: 0 });
    }
    if let Some((first, second)) = find_duplicate(&keys) {
        return Err(Error::DuplicateKey { first, second });
    }
    let a = build_artifact(DEFAULT_CHAIN_ID, &keys, keys.len());
    assert(keys_well_sized(a@)) by {
        assert forall|i: int| 0 <= i < a@.validators.len() implies (
        #[trigger] a@.validators[i]).public_key.len() == PUBLIC_KEY_LEN by {
            assert(a@.validators[i].public_key == record_key(text@, i as nat));
            assert(record_valid(text@, i as nat));
            assert(text@.subrange(record_start(i as nat), record_start(i as nat) + 128).len()
                == 128);
        }
    }
    Ok(a)
}

} // verus!
