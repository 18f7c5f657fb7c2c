//! The byte layout of the genesis artifact and of the private-key bundle.
//!
//! An artifact is the chain id (4 bytes), the number of validators (8 bytes)
//! and then, for each validator, its index (8 bytes), its public key
//! (64 bytes), its voting power (8 bytes) and a genesis flag (1 byte, 0 or 1).
//! Integers are little-endian. The bundle is the number of keys (8 bytes) and,
//! for each key, its index (8 bytes) and the secret (32 bytes).

use crate::artifact::{
    keys_well_sized, GenesisArtifact, GenesisArtifactView, PrivateKeyEntry, ValidatorEntry,
    ValidatorEntryView,
};
use crate::bytes::{
    copy_range, lemma_le_bytes_len, lemma_le_round_trip, lemma_le_value_bound, le_bytes, le_value, pow256, push_le,
    read_le,
};
use crate::error::Error;
use crate::genesis::PUBLIC_KEY_LEN;
use vstd::prelude::*;

verus! {

/// Bytes before the first validator.
pub const HEADER_LEN: usize = 12;

/// Bytes of one validator.
pub const ENTRY_LEN: usize = 81;

/// The byte that stores a genesis flag.
pub open spec fn flag_byte(b: bool) -> u8 {
    if b {
        1
    } else {
        0
    }
}

/// The bytes of one validator.
pub open spec fn entry_bytes(e: ValidatorEntryView) -> Seq<u8> {
    le_bytes(e.index as nat, 8) + e.public_key + le_bytes(e.voting_power as nat, 8) + seq![
        flag_byte(e.in_genesis),
    ]
}

/// The bytes of the validators `es`, one after the other.
pub open spec fn entries_bytes(es: Seq<ValidatorEntryView>) -> Seq<u8>
    decreases es.len(),
{
    if es.len() == 0 {
        Seq::empty()
    } else {
        entries_bytes(es.drop_last()) + entry_bytes(es.last())
    }
}

/// The bytes of the artifact `a`.
pub open spec fn artifact_bytes(a: GenesisArtifactView) -> Seq<u8> {
    le_bytes(a.chain_id as nat, 4) + le_bytes(a.validators.len(), 8) + entries_bytes(a.validators)
}

/// The validator stored at position `i` of the artifact bytes `b`.
pub open spec fn entry_at(b: Seq<u8>, i: int) -> ValidatorEntryView {
    let o = 12 + 81 * i;
    ValidatorEntryView {
        index: le_value(b.subrange(o, o + 8)) as u64,
        public_key: b.subrange(o + 8, o + 72),
        voting_power: le_value(b.subrange(o + 72, o + 80)) as u64,
        in_genesis: b[o + 80] == 1,
    }
}

/// The number of validators that the artifact bytes `b` announce.
pub open spec fn announced_count(b: Seq<u8>) -> nat {
    le_value(b.subrange(4, 12))
}

/// What a reader makes of the bytes `b`: an artifact when `b` is a header
/// followed by exactly the announced number of validators, each with a flag of
/// 0 or 1; nothing otherwise.
pub open spec fn decoded_artifact(b: Seq<u8>) -> Option<GenesisArtifactView> {
    if b.len() >= 12 && b.len() == 12 + 81 * announced_count(b) && forall|i: int|
        0 <= i < announced_count(b) ==> #[trigger] b[12 + 81 * i + 80] <= 1 {
        Some(
            GenesisArtifactView {
                chain_id: le_value(b.subrange(0, 4)) as u32,
                validators: Seq::new(announced_count(b), |i: int| entry_at(b, i)),
            },
        )
    } else {
        None
    }
}

/// An artifact that the layout can hold: keys of the right length and a
/// validator count that fits in 8 bytes.
pub open spec fn encodable(a: GenesisArtifactView) -> bool {
    keys_well_sized(a) && a.validators.len() < pow256(8)
}

/// The bytes of a validator with a 64-byte key hold its fields at fixed
/// offsets.
pub proof fn lemma_entry_bytes(e: ValidatorEntryView)
    requires
        e.public_key.len() == 64,
    ensures
        entry_bytes(e).len() == 81,
        le_value(entry_bytes(e).subrange(0, 8)) == e.index,
        entry_bytes(e).subrange(8, 72) == e.public_key,
        le_value(entry_bytes(e).subrange(72, 80)) == e.voting_power,
        entry_bytes(e)[80] == flag_byte(e.in_genesis),
{
    let ib = le_bytes(e.index as nat, 8);
    let pb = le_bytes(e.voting_power as nat, 8);
    lemma_le_bytes_len(e.index as nat, 8);
    lemma_le_bytes_len(e.voting_power as nat, 8);
    reveal_with_fuel(pow256, 9);
    lemma_le_round_trip(e.index as nat, 8);
    lemma_le_round_trip(e.voting_power as nat, 8);
    let s = entry_bytes(e);
    assert(s.subrange(0, 8) =~= ib);
    assert(s.subrange(8, 72) =~= e.public_key);
    assert(s.subrange(72, 80) =~= pb);
}

/// The validators' bytes hold each validator, in order, 81 bytes apart.
pub proof fn lemma_entries_bytes(es: Seq<ValidatorEntryView>)
    requires
        forall|i: int| 0 <= i < es.len() ==> (#[trigger] es[i]).public_key.len() == 64,
    ensures
        entries_bytes(es).len() == 81 * es.len(),
        forall|i: int|
            0 <= i < es.len() ==> entries_bytes(es).subrange(81 * i, 81 * i + 81) == entry_bytes(
                #[trigger] es[i],
            ),
    decreases es.len(),
{
    if es.len() > 0 {
        let init = es.drop_last();
        lemma_entries_bytes(init);
        lemma_entry_bytes(es.last());
        let whole = entries_bytes(es);
        assert(whole == entries_bytes(init) + entry_bytes(es.last()));
        assert forall|i: int| 0 <= i < es.len() implies whole.subrange(81 * i, 81 * i + 81)
            == entry_bytes(#[trigger] es[i]) by {
            if i < es.len() - 1 {
                assert(init[i] == es[i]);
                assert(whole.subrange(81 * i, 81 * i + 81) =~= entries_bytes(init).subrange(
                    81 * i,
                    81 * i + 81,
                ));
            } else {
                assert(whole.subrange(81 * i, 81 * i + 81) =~= entry_bytes(es.last()));
            }
        }
    }
}

/// Reading back the bytes of an encodable artifact gives that artifact: the
/// same chain id, and the same validators with the same public keys, voting
/// power and genesis membership, in the same order.
pub proof fn lemma_artifact_round_trip(a: GenesisArtifactView)
    requires
        encodable(a),
    ensures
        decoded_artifact(artifact_bytes(a)) == Some(a),
{
    let b = artifact_bytes(a);
    let es = a.validators;
    let n = es.len();
    assert forall|i: int| 0 <= i < n implies (#[trigger] es[i]).public_key.len() == 64 by {
        assert(keys_well_sized(a));
    }
    lemma_entries_bytes(es);
    lemma_le_bytes_len(a.chain_id as nat, 4);
    lemma_le_bytes_len(n, 8);
    reveal_with_fuel(pow256, 5);
    lemma_le_round_trip(a.chain_id as nat, 4);
    lemma_le_round_trip(n, 8);
    let body = entries_bytes(es);
    assert(b.subrange(0, 4) =~= le_bytes(a.chain_id as nat, 4));
    assert(b.subrange(4, 12) =~= le_bytes(n, 8));
    assert(announced_count(b) == n);
    assert forall|i: int| 0 <= i < n implies entry_at(b, i) == es[i] && #[trigger] b[12 + 81 * i
        + 80] <= 1 by {
        let eb = entry_bytes(es[i]);
        lemma_entry_bytes(es[i]);
        assert(body.subrange(81 * i, 81 * i + 81) == eb);
        let o = 12 + 81 * i;
        assert(b.subrange(o, o + 81) =~= eb);
        assert(b.subrange(o, o + 8) =~= eb.subrange(0, 8));
        assert(b.subrange(o + 8, o + 72) =~= eb.subrange(8, 72));
        assert(b.subrange(o + 72, o + 80) =~= eb.subrange(72, 80));
        assert(b[o + 80] == eb[80]);
    }
    let d = decoded_artifact(b).unwrap();
    assert(d.validators =~= es);
}

/// Writes the bytes of the artifact `a`; fails on the first validator whose
/// public key is not 64 bytes long.
pub fn encode_artifact(a: &GenesisArtifact) -> (r: Result<Vec<u8>, Error>)
    ensures
        r is Ok <==> keys_well_sized(a@),
        r matches Ok(b) ==> b@ == artifact_bytes(a@),
        r matches Err(e) ==> e matches Error::Format { index } && index < a@.validators.len()
            && a@.validators[index as int].public_key.len() != PUBLIC_KEY_LEN && forall|j: int|
            0 <= j < index ==> (#[trigger] a@.validators[j]).public_key.len() == PUBLIC_KEY_LEN,
{
    let ghost es = a@.validators;
    let mut out: Vec<u8> = Vec::new();
    push_le(&mut out, a.chain_id as u64, 4);
    push_le(&mut out, a.validators.len() as u64, 8);
    let ghost header = out@;
    assert(header == le_bytes(a.chain_id as nat, 4) + le_bytes(es.len(), 8));
    assert(es.take(0) =~= Seq::<ValidatorEntryView>::empty());
    assert(out@ =~= header + entries_bytes(es.take(0)));
    let mut i: usize = 0;
    while i < a.validators.len()
        invariant
            es == a@.validators,
            i <= es.len(),
            forall|j: int| 0 <= j < i ==> (#[trigger] es[j]).public_key.len() == PUBLIC_KEY_LEN,
            out@ == header + entries_bytes(es.take(i as int)),
        decreases es.len() - i,
    {
        let e = &a.validators[i];
        assert(es[i as int] == e@);
        if e.public_key.len() != PUBLIC_KEY_LEN {
            return Err(Error::Format { index: i });
        }
        push_le(&mut out, e.index, 8);
        let mut key = copy_range(e.public_key.as_slice(), 0, e.public_key.len());
        out.append(&mut key);
        push_le(&mut out, e.voting_power, 8);
        out.push(if e.in_genesis { 1u8 } else { 0u8 });
        assert(es.take(i + 1).drop_last() =~= es.take(i as int));
        assert(es.take(i + 1).last() == e@);
        i = i + 1;
        assert(out@ =~= header + entries_bytes(es.take(i as int)));
    }
    assert(es.take(i as int) =~= es);
    Ok(out)
}

/// Reads an artifact back from its bytes; `None` when the bytes do not follow
/// the layout.
pub fn decode_artifact(b: &[u8]) -> (r: Option<GenesisArtifact>)
    ensures
        match r {
            Some(a) => decoded_artifact(b@) == Some(a@),
            None => decoded_artifact(b@) is None,
        },
{
    let len: usize = b.len();
    if len < HEADER_LEN {
        return None;
    }
    let chain = read_le(b, 0, 4);
    let count = read_le(b, 4, 8);
    if (len - HEADER_LEN) % ENTRY_LEN != 0 || ((len - HEADER_LEN) / ENTRY_LEN) as u64 != count {
        assert(b@.len() != 12 + 81 * announced_count(b@));
        return None;
    }
    let n: usize = (len - HEADER_LEN) / ENTRY_LEN;
    assert(len == 12 + 81 * n);
    let mut validators: Vec<ValidatorEntry> = Vec::new();
    let mut i: usize = 0;
    while i < n
        invariant
            len == b@.len(),
            len == 12 + 81 * n,
            n == announced_count(b@),
            i <= n,
            validators@.len() == i,
            forall|j: int| 0 <= j < i ==> #[trigger] b@[12 + 81 * j + 80] <= 1,
            forall|j: int| 0 <= j < i ==> (#[trigger] validators@[j])@ == entry_at(b@, j),
        decreases n - i,
    {
        assert(12 + 81 * i + 81 <= len) by (nonlinear_arith)
            requires
                i < n,
                len == 12 + 81 * n,
        ;
        let o: usize = HEADER_LEN + ENTRY_LEN * i;
        let flag = b[o + 80];
        if flag > 1 {
            assert(!(forall|j: int| 0 <= j < n ==> #[trigger] b@[12 + 81 * j + 80] <= 1));
            return None;
        }
        let index = read_le(b, o, 8);
        let public_key = copy_range(b, o + 8, o + 72);
        let voting_power = read_le(b, o + 72, 8);
        validators.push(ValidatorEntry { index, public_key, voting_power, in_genesis: flag == 1 });
        i = i + 1;
    }
    let r = GenesisArtifact { chain_id: chain as u32, validators };
    assert(le_value(b@.subrange(0, 4)) < pow256(4)) by {
        lemma_le_value_bound(b@.subrange(0, 4));
        reveal_with_fuel(pow256, 5);
    }
    assert(r@.validators =~= Seq::new(n as nat, |j: int| entry_at(b@, j)));
    Some(r)
}

/// The bytes of a bundle of private keys.
pub open spec fn bundle_bytes(keys: Seq<(u64, Seq<u8>)>) -> Seq<u8>
    decreases keys.len(),
{
    if keys.len() == 0 {
        Seq::empty()
    } else {
        bundle_bytes(keys.drop_last()) + le_bytes(keys.last().0 as nat, 8) + keys.last().1
    }
}

/// The index and secret of each entry of a bundle.
pub open spec fn bundle_view(keys: Seq<PrivateKeyEntry>) -> Seq<(u64, Seq<u8>)> {
    keys.map_values(|e: PrivateKeyEntry| (e.index, e.secret@))
}

/// Writes the bytes of a bundle of private keys: their number, then each
/// index and secret.
pub fn encode_private_keys(keys: &Vec<PrivateKeyEntry>) -> (r: Vec<u8>)
    ensures
        r@ == le_bytes(keys@.len() as nat, 8) + bundle_bytes(bundle_view(keys@)),
{
    let ghost kv = bundle_view(keys@);
    let mut out: Vec<u8> = Vec::new();
    push_le(&mut out, keys.len() as u64, 8);
    let ghost header = out@;
    assert(kv.take(0) =~= Seq::<(u64, Seq<u8>)>::empty());
    assert(out@ =~= header + bundle_bytes(kv.take(0)));
    let mut i: usize = 0;
    while i < keys.len()
        invariant
            kv == bundle_view(keys@),
            i <= keys@.len(),
            header == le_bytes(keys@.len() as nat, 8),
            out@ == header + bundle_bytes(kv.take(i as int)),
        decreases keys@.len() - i,
    {
        let e = &keys[i];
        assert(kv[i as int] == (e.index, e.secret@));
        push_le(&mut out, e.index, 8);
        let mut secret = copy_range(e.secret.as_slice(), 0, e.secret.len());
        out.append(&mut secret);
        assert(kv.take(i + 1).drop_last() =~= kv.take(i as int));
        i = i + 1;
        assert(out@ =~= header + bundle_bytes(kv.take(i as int)));
    }
    assert(kv.take(i as int) =~= kv);
    out
}

} // verus!
