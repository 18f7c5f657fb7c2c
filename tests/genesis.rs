use devnetctl::artifact::{GenesisArtifact, ValidatorEntry};
use devnetctl::bytes::{decode_hex, push_le, read_le};
use devnetctl::codec::{decode_artifact, encode_artifact};
use devnetctl::genesis::{
    derive_validator_keys, find_duplicate, generate_from_pub, generate_random, parse_public_keys,
};
use devnetctl::{execute, Commands, Error, GenesisCommands, GenesisOutput};
use k256::elliptic_curve::sec1::ToEncodedPoint;
use rustc_hex::{FromHex, ToHex};
use tiny_keccak::Hasher;

fn random(seed: &str, n: usize, k: usize, chain_id: u32) -> Result<GenesisOutput, Error> {
    execute(Commands::Genesis {
        subcommand: GenesisCommands::Random {
            initial_seed: seed.to_string(),
            num_validator: n,
            num_genesis_validator: k,
            chain_id,
        },
    })
}

fn from_pub(text: &str) -> Result<GenesisOutput, Error> {
    execute(Commands::Genesis {
        subcommand: GenesisCommands::FromPub {
            initial_seed: "devnet-1".to_string(),
            pkfile: text.as_bytes().to_vec(),
        },
    })
}

fn decoded(o: &GenesisOutput) -> GenesisArtifact {
    decode_artifact(&o.artifact).expect("artifact reads back")
}

fn public_keys(a: &GenesisArtifact) -> Vec<Vec<u8>> {
    a.validators.iter().map(|v| v.public_key.clone()).collect()
}

fn key_file(keys: &[Vec<u8>]) -> String {
    let mut text = String::new();
    for k in keys {
        let line: String = k.to_hex();
        text.push_str(&line);
        text.push('\n');
    }
    text
}

#[test]
fn devnet_scenario_four_validators_two_at_genesis() {
    let out = random("devnet-1", 4, 2, 7).expect("run succeeds");
    let a = decoded(&out);
    assert_eq!(a.chain_id, 7);
    assert_eq!(a.validators.len(), 4);
    for (i, v) in a.validators.iter().enumerate() {
        assert_eq!(v.index, i as u64);
        assert_eq!(v.public_key.len(), 64);
        assert_eq!(v.voting_power, 1);
        assert_eq!(v.in_genesis, i < 2);
    }
    let bundle = out.private_keys.clone().expect("bundle in random mode");
    assert_eq!(bundle.len(), 8 + 4 * 40);
    assert_eq!(read_le(&bundle, 0, 8), 4);
    let again = random("devnet-1", 4, 2, 7).expect("run succeeds");
    assert_eq!(public_keys(&decoded(&again)), public_keys(&a));
}

#[test]
fn random_runs_are_byte_identical() {
    let a = random("repeat", 3, 1, 11).unwrap();
    let b = random("repeat", 3, 1, 11).unwrap();
    assert_eq!(a.artifact, b.artifact);
    assert_eq!(a.private_keys, b.private_keys);
    let c = random("other", 3, 1, 11).unwrap();
    assert_ne!(a.artifact, c.artifact);
}

#[test]
fn more_validators_extend_the_set() {
    let five = generate_random("grow", 5, 2, 1).unwrap();
    let ten = generate_random("grow", 10, 2, 1).unwrap();
    assert_eq!(ten.artifact.validators.len(), 10);
    for i in 0..5 {
        assert_eq!(five.artifact.validators[i].public_key, ten.artifact.validators[i].public_key);
        assert_eq!(five.private_keys[i].secret, ten.private_keys[i].secret);
        assert_eq!(five.private_keys[i].index, i as u64);
    }
}

#[test]
fn genesis_set_is_the_lowest_indices() {
    let g = generate_random("subset", 6, 3, 2).unwrap();
    let members: Vec<u64> =
        g.artifact.validators.iter().filter(|v| v.in_genesis).map(|v| v.index).collect();
    assert_eq!(members, vec![0, 1, 2]);
}

#[test]
fn generated_keys_are_distinct_and_on_the_curve() {
    let g = generate_random("unique", 8, 8, 0).unwrap();
    let keys = public_keys(&g.artifact);
    assert!(find_duplicate(&keys).is_none());
    for k in &keys {
        let mut point = vec![4u8];
        point.extend_from_slice(k);
        assert!(k256::PublicKey::from_sec1_bytes(&point).is_ok());
    }
}

#[test]
fn more_genesis_validators_than_validators_is_rejected() {
    match random("devnet-1", 2, 3, 0) {
        Err(e) => assert_eq!(e, Error::InvalidParameter { num_validator: 2, num_genesis_validator: 3 }),
        Ok(_) => panic!("expected an error"),
    }
}

#[test]
fn zero_genesis_validators_is_rejected() {
    assert_eq!(
        generate_random("devnet-1", 2, 0, 0).err(),
        Some(Error::InvalidParameter { num_validator: 2, num_genesis_validator: 0 })
    );
    assert_eq!(
        generate_random("devnet-1", 0, 0, 0).err(),
        Some(Error::InvalidParameter { num_validator: 0, num_genesis_validator: 0 })
    );
}

#[test]
fn artifact_round_trip() {
    let g = generate_random("round", 4, 3, 99).unwrap();
    let bytes = encode_artifact(&g.artifact).unwrap();
    assert_eq!(bytes.len(), 12 + 4 * 81);
    let back = decode_artifact(&bytes).unwrap();
    assert_eq!(back.chain_id, 99);
    assert_eq!(public_keys(&back), public_keys(&g.artifact));
    let flags: Vec<bool> = back.validators.iter().map(|v| v.in_genesis).collect();
    assert_eq!(flags, vec![true, true, true, false]);
}

#[test]
fn encode_rejects_a_short_key() {
    let mut g = generate_random("round", 3, 1, 5).unwrap();
    g.artifact.validators[1].public_key.pop();
    g.artifact.validators[2].public_key.pop();
    assert_eq!(encode_artifact(&g.artifact).err(), Some(Error::Format { index: 1 }));
}

#[test]
fn decode_rejects_bad_layouts() {
    let g = generate_random("round", 2, 1, 5).unwrap();
    let bytes = encode_artifact(&g.artifact).unwrap();
    assert!(decode_artifact(&bytes[..bytes.len() - 1]).is_none());
    assert!(decode_artifact(&bytes[..5]).is_none());
    let mut bad_flag = bytes.clone();
    let last = bad_flag.len() - 1;
    bad_flag[last] = 2;
    assert!(decode_artifact(&bad_flag).is_none());
    let mut bad_count = bytes.clone();
    bad_count[4] = 3;
    assert!(decode_artifact(&bad_count).is_none());
}

#[test]
fn from_pub_three_keys_in_file_order() {
    let g = generate_random("keys", 3, 1, 0).unwrap();
    let keys = public_keys(&g.artifact);
    let mut reversed = keys.clone();
    reversed.reverse();
    let out = from_pub(&key_file(&reversed)).unwrap();
    assert!(out.private_keys.is_none());
    let a = decoded(&out);
    assert_eq!(a.chain_id, 0);
    assert_eq!(public_keys(&a), reversed);
    for (i, v) in a.validators.iter().enumerate() {
        assert_eq!(v.index, i as u64);
        assert!(v.in_genesis);
    }
}

#[test]
fn from_pub_accepts_missing_final_newline() {
    let g = generate_random("keys", 2, 1, 0).unwrap();
    let keys = public_keys(&g.artifact);
    let mut text = key_file(&keys);
    text.pop();
    let a = generate_from_pub(text.as_bytes()).unwrap();
    assert_eq!(public_keys(&a), keys);
}

#[test]
fn from_pub_duplicate_key_is_rejected() {
    let g = generate_random("keys", 2, 1, 0).unwrap();
    let keys = public_keys(&g.artifact);
    let text = key_file(&[keys[0].clone(), keys[1].clone(), keys[0].clone()]);
    assert_eq!(from_pub(&text).err(), Some(Error::DuplicateKey { first: 0, second: 2 }));
}

#[test]
fn from_pub_duplicate_with_other_case_is_rejected() {
    let g = generate_random("keys", 1, 1, 0).unwrap();
    let line: String = g.artifact.validators[0].public_key.to_hex();
    let text = format!("{}\n{}\n", line, line.to_uppercase());
    assert_eq!(generate_from_pub(text.as_bytes()).err(), Some(Error::DuplicateKey { first: 0, second: 1 }));
}

#[test]
fn from_pub_malformed_records_are_rejected() {
    let g = generate_random("keys", 2, 1, 0).unwrap();
    let good: String = g.artifact.validators[0].public_key.to_hex();
    let short = &good[..126];
    assert_eq!(
        parse_public_keys(format!("{}\n{}\n", good, short).as_bytes()).err(),
        Some(Error::Parse { line: 1 })
    );
    let bad_char = format!("{}zz", &good[..126]);
    assert_eq!(
        parse_public_keys(format!("{}\n", bad_char).as_bytes()).err(),
        Some(Error::Parse { line: 0 })
    );
    assert_eq!(
        parse_public_keys(format!("{}0\n", good).as_bytes()).err(),
        Some(Error::Parse { line: 0 })
    );
}

#[test]
fn from_pub_point_off_the_curve_is_rejected() {
    let zeros = "0".repeat(128);
    assert_eq!(
        generate_from_pub(format!("{}\n", zeros).as_bytes()).err(),
        Some(Error::Decode { line: 0 })
    );
}

#[test]
fn from_pub_empty_file_is_rejected() {
    assert_eq!(
        generate_from_pub(b"").err(),
        Some(Error::InvalidParameter { num_validator: 0, num_genesis_validator: 0 })
    );
}

fn keccak(data: &[u8]) -> Vec<u8> {
    let mut out = [0u8; 32];
    let mut h = tiny_keccak::Keccak::v256();
    h.update(data);
    h.finalize(&mut out);
    out.to_vec()
}

fn uncompressed_public(secret: &[u8]) -> Vec<u8> {
    let sk = k256::SecretKey::from_slice(secret).unwrap();
    sk.public_key().to_encoded_point(false).as_bytes()[1..].to_vec()
}

#[test]
fn secrets_follow_the_seed_digest_and_index() {
    let (secrets, publics) = derive_validator_keys(b"seed", 3).unwrap();
    assert_eq!(secrets.len(), 3);
    assert_eq!(publics.len(), 3);
    let digest = keccak(b"seed");
    for i in 0..3u64 {
        let mut input = digest.clone();
        input.extend_from_slice(&i.to_le_bytes());
        assert_eq!(secrets[i as usize], keccak(&input));
    }
    assert_ne!(secrets[0], secrets[1]);
}

#[test]
fn empty_seed_is_accepted() {
    let (secrets, _) = derive_validator_keys(b"", 1).unwrap();
    let expected: Vec<u8> =
        "c5d2460186f7233c927e7db2dcc703c0e500b653ca82273b7bfad8045d85a470".from_hex().unwrap();
    assert_eq!(keccak(b""), expected);
    let mut input = expected.clone();
    input.extend_from_slice(&[0u8; 8]);
    assert_eq!(secrets[0], keccak(&input));
}

#[test]
fn public_keys_are_the_points_of_the_secrets() {
    let (secrets, publics) = derive_validator_keys(b"points", 4).unwrap();
    for i in 0..4 {
        assert_eq!(publics[i].len(), 64);
        assert_eq!(publics[i], uncompressed_public(&secrets[i]));
        assert_ne!(publics[i], secrets[i]);
    }
}

#[test]
fn hex_and_little_endian_helpers() {
    assert_eq!(decode_hex(b"x0aFf", 1, 4), Some(vec![0x0a, 0xff]));
    assert_eq!(decode_hex(b"0g", 0, 2), None);
    assert_eq!(decode_hex(b"abc", 0, 3), None);
    let mut out = vec![9u8];
    push_le(&mut out, 0x0102_0304, 4);
    assert_eq!(out, vec![9, 4, 3, 2, 1]);
    assert_eq!(read_le(&out, 1, 4), 0x0102_0304);
}

#[test]
fn artifact_layout_is_exact() {

    let a = GenesisArtifact {
        chain_id: 0x0102_0304,
        validators: vec![ValidatorEntry {
            index: 5,
            public_key: vec![7u8; 64],
            voting_power: 1,
            in_genesis: true,
        }],
    };
    let mut expected = vec![4u8, 3, 2, 1, 1, 0, 0, 0, 0, 0, 0, 0, 5, 0, 0, 0, 0, 0, 0, 0];
    expected.extend_from_slice(&[7u8; 64]);
    expected.extend_from_slice(&[1, 0, 0, 0, 0, 0, 0, 0, 1]);
    assert_eq!(encode_artifact(&a).unwrap(), expected);
}

#[test]
fn private_key_bundle_layout_is_exact() {
    let g = generate_random("bundle", 2, 1, 0).unwrap();
    let out = random("bundle", 2, 1, 0).unwrap();
    let mut expected = vec![2u8, 0, 0, 0, 0, 0, 0, 0];
    for (i, k) in g.private_keys.iter().enumerate() {
        assert_eq!(k.index, i as u64);
        assert_eq!(k.secret.len(), 32);
        expected.extend_from_slice(&(i as u64).to_le_bytes());
        expected.extend_from_slice(&k.secret);
    }
    assert_eq!(out.private_keys, Some(expected));
}
