use bitcoin::key::Secp256k1;
use bitcoin::taproot::{LeafVersion, TaprootBuilder};
use bitcoin::{ScriptBuf, XOnlyPublicKey};
use ctv_covenant::error::CovenantError;
use ctv_covenant::script::{anchor_output, build_leaf, p2tr_script_pubkey, RestrictionScript};
use ctv_covenant::taproot::{
    commit_single_leaf, derive_address, Network, TapCommitment, TweakedKey,
};

// The x coordinate of the generator: a valid x-only key.
fn generator_x() -> [u8; 32] {
    let bytes = hex::decode("79be667ef9dcbbac55a06295ce870b07029bfcdb2dce28d959f2815b16f81798")
        .unwrap();
    let mut key = [0u8; 32];
    key.copy_from_slice(&bytes);
    key
}

#[test]
fn restriction_script_layout() {
    let digest = [0x42u8; 32];
    let script = build_leaf(&digest).unwrap();
    let mut expected = vec![0x20];
    expected.extend_from_slice(&digest);
    expected.push(0xb3);
    assert_eq!(script.bytes, expected);
    assert_eq!(script.bytes.len(), 34);
}

#[test]
fn restriction_script_matches_the_script_builder() {
    let digest = [0x07u8; 32];
    let script = build_leaf(&digest).unwrap();
    let built = bitcoin::script::Builder::new()
        .push_slice(&digest)
        .push_opcode(bitcoin::opcodes::all::OP_NOP4)
        .into_script();
    assert_eq!(script.bytes, built.into_bytes());
}

#[test]
fn restriction_script_refuses_other_lengths() {
    assert_eq!(build_leaf(&[0u8; 31]), Err(CovenantError::InvalidDigestLength));
    assert_eq!(build_leaf(&[0u8; 33]), Err(CovenantError::InvalidDigestLength));
    assert_eq!(build_leaf(&[]), Err(CovenantError::InvalidDigestLength));
}

#[test]
fn anchor_output_bytes() {
    let anchor = anchor_output();
    assert_eq!(anchor.value, 330);
    assert_eq!(anchor.destination, vec![0x51, 0x02, 0x4e, 0x73]);
}

#[test]
fn p2tr_script_bytes() {
    let key = generator_x();
    let script = p2tr_script_pubkey(&key);
    let mut expected = vec![0x51, 0x20];
    expected.extend_from_slice(&key);
    assert_eq!(script, expected);
    let xonly = XOnlyPublicKey::from_slice(&key).unwrap();
    let tweaked = bitcoin::key::TweakedPublicKey::dangerous_assume_tweaked(xonly);
    assert_eq!(script, ScriptBuf::new_p2tr_tweaked(tweaked).into_bytes());
}

#[test]
fn single_leaf_commitment_matches_the_taproot_builder() {
    let key = generator_x();
    let script = build_leaf(&[0x11u8; 32]).unwrap();
    let tap = commit_single_leaf(key, script.clone()).unwrap();

    let secp = Secp256k1::new();
    let xonly = XOnlyPublicKey::from_slice(&key).unwrap();
    let leaf = ScriptBuf::from_bytes(script.bytes.clone());
    let info = TaprootBuilder::new()
        .add_leaf(0, leaf.clone())
        .unwrap()
        .finalize(&secp, xonly)
        .unwrap();
    let block = info.control_block(&(leaf, LeafVersion::TapScript)).unwrap();

    assert_eq!(tap.output_key, info.output_key().to_inner().serialize());
    assert_eq!(tap.control_block, block.serialize());
    assert_eq!(tap.control_block.len(), 33);
    assert_eq!(tap.control_block[0] & 0xfe, 0xc0);
    assert_eq!(&tap.control_block[1..], &key[..]);
    assert_eq!(tap.internal_key, key);
    assert_eq!(tap.leaf_script, script);
    assert_eq!(tap.leaf_version, 0xc0);
    assert_ne!(tap.output_key, key);
}

#[test]
fn single_leaf_commitment_is_deterministic() {
    let key = generator_x();
    let first = commit_single_leaf(key, build_leaf(&[0x22u8; 32]).unwrap()).unwrap();
    let second = commit_single_leaf(key, build_leaf(&[0x22u8; 32]).unwrap()).unwrap();
    assert_eq!(first, second);
    let other = commit_single_leaf(key, build_leaf(&[0x23u8; 32]).unwrap()).unwrap();
    assert_ne!(first.output_key, other.output_key);
}

#[test]
fn invalid_internal_key_is_a_finalize_error() {
    // No point of the curve has an all-zero x coordinate.
    let script = build_leaf(&[0x11u8; 32]).unwrap();
    assert_eq!(commit_single_leaf([0u8; 32], script), Err(CovenantError::TreeFinalize));
}

#[test]
fn from_tweak_lays_out_the_control_block() {
    let key = generator_x();
    let script = RestrictionScript { bytes: build_leaf(&[0x11u8; 32]).unwrap().bytes };
    let even = TapCommitment::from_tweak(
        key,
        script.clone(),
        Some(TweakedKey { output_key: [9u8; 32], odd: false }),
    )
    .unwrap();
    assert_eq!(even.control_block[0], 0xc0);
    assert_eq!(&even.control_block[1..], &key[..]);
    assert_eq!(even.output_key, [9u8; 32]);
    let odd = TapCommitment::from_tweak(
        key,
        script.clone(),
        Some(TweakedKey { output_key: [9u8; 32], odd: true }),
    )
    .unwrap();
    assert_eq!(odd.control_block[0], 0xc1);
    assert_eq!(odd.control_block.len(), 33);
    assert_eq!(
        TapCommitment::from_tweak(key, script, None),
        Err(CovenantError::TreeFinalize)
    );
}

#[test]
fn witness_stack_is_script_then_control_block() {
    let key = generator_x();
    let tap = commit_single_leaf(key, build_leaf(&[0x11u8; 32]).unwrap()).unwrap();
    let stack = tap.witness_stack();
    assert_eq!(stack.len(), 2);
    assert_eq!(stack[0], tap.leaf_script.bytes);
    assert_eq!(stack[1], tap.control_block);
}

#[test]
fn address_matches_the_address_type() {
    let key = generator_x();
    let tap = commit_single_leaf(key, build_leaf(&[0x11u8; 32]).unwrap()).unwrap();
    let xonly = XOnlyPublicKey::from_slice(&tap.output_key).unwrap();
    let tweaked = bitcoin::key::TweakedPublicKey::dangerous_assume_tweaked(xonly);
    for (network, theirs, prefix) in [
        (Network::Bitcoin, bitcoin::Network::Bitcoin, "bc1p"),
        (Network::Testnet, bitcoin::Network::Testnet, "tb1p"),
        (Network::Signet, bitcoin::Network::Signet, "tb1p"),
        (Network::Regtest, bitcoin::Network::Regtest, "bcrt1p"),
    ] {
        let address = derive_address(&tap.output_key, network);
        assert_eq!(address, bitcoin::Address::p2tr_tweaked(tweaked, theirs).to_string());
        assert!(address.starts_with(prefix));
    }
}

#[test]
fn address_of_a_known_key() {
    // The output key of the first test vector of BIP 86.
    let bytes = hex::decode("a60869f0dbcf1dc659c9cecbaf8050135ea9e8cdc487053f1dc6880949dc684c")
        .unwrap();
    let mut key = [0u8; 32];
    key.copy_from_slice(&bytes);
    assert_eq!(
        derive_address(&key, Network::Bitcoin),
        "bc1p5cyxnuxmeuwuvkwfem96lqzszd02n6xdcjrs20cac6yqjjwudpxqkedrcr"
    );
}
