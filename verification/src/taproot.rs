//! Single-leaf taproot commitments: an internal key and one restriction script
//! give an output key, and the control block that later proves the script.

use crate::bytes::{append_bytes, bytes_equal, copy_bytes};
use crate::error::CovenantError;
use crate::script::RestrictionScript;
use bitcoin::Script;
use bitcoin::secp256k1::{Parity, Scalar, Secp256k1};
use bitcoin::taproot::{LeafVersion, TapNodeHash, TapTweakHash};
use vstd::prelude::*;

verus! {

/// The leaf version of a tapscript leaf.
pub const LEAF_VERSION_TAPSCRIPT: u8 = 0xc0;

/// The length of a control block for a tree of one leaf: one byte, then the
/// internal key.
pub const CONTROL_BLOCK_LEN: usize = 33;

/// The network that an address is for.
#[derive(Debug, Clone, Copy, PartialEq, Eq, Structural)]
pub enum Network {
    /// The main network.
    Bitcoin,
    /// The public test network.
    Testnet,
    /// The signed test network; its addresses look like those of `Testnet`.
    Signet,
    /// A local network for regression tests.
    Regtest,
}

/// A tweaked key as it comes out of the curve arithmetic.
#[derive(Debug, Clone, Copy, PartialEq, Eq)]
pub struct TweakedKey {
    pub output_key: [u8; 32],
    pub odd: bool,
}

/// A restriction script committed into a taproot output as its only leaf.
#[derive(Debug, PartialEq, Eq)]
pub struct TapCommitment {
    pub internal_key: [u8; 32],
    pub leaf_script: RestrictionScript,
    pub leaf_version: u8,
    pub output_key: [u8; 32],
    pub control_block: Vec<u8>,
}

/// The taproot output key for an internal key and a script tree that has the
/// given script, at the given leaf version, as its only leaf, and whether that
/// key's y coordinate is odd. `None` where the internal key is no valid x-only
/// public key, the version is no leaf version, or the tweak has no result.
pub uninterp spec fn taproot_tweak(
    internal_key: Seq<u8>,
    leaf_script: Seq<u8>,
    leaf_version: u8,
) -> Option<(Seq<u8>, bool)>;

/// The taproot output key, and whether it is odd, for a tree whose only leaf
/// is the given script as a tapscript.
pub open spec fn tapscript_tweak(internal_key: Seq<u8>, leaf_script: Seq<u8>) -> Option<
    (Seq<u8>, bool),
> {
    taproot_tweak(internal_key, leaf_script, LEAF_VERSION_TAPSCRIPT)
}

/// The address that pays to a taproot output key on a network.
pub uninterp spec fn p2tr_address(output_key: Seq<u8>, network: Network) -> Seq<char>;

/// The control block of a one-leaf tree: the leaf version with the parity of
/// the output key in its lowest bit, then the internal key; the merkle path is
/// empty.
pub open spec fn control_block_bytes(internal_key: Seq<u8>, odd: bool) -> Seq<u8> {
    seq![
        if odd {
            (LEAF_VERSION_TAPSCRIPT + 1) as u8
        } else {
            LEAF_VERSION_TAPSCRIPT
        },
    ] + internal_key
}

/// Computes the tweak with the `bitcoin` crate: `XOnlyPublicKey::from_slice`,
/// `LeafVersion::from_consensus`, `TapNodeHash::from_script`,
/// `TapTweakHash::from_key_and_tweak`, `Scalar::from_be_bytes` and
/// `XOnlyPublicKey::add_tweak`. Trusted: the result is the named tweak of the
/// three arguments, and `None` exactly where one of the steps fails.
#[verifier::external_body]
fn tweak_single_leaf(internal_key: &[u8; 32], leaf_script: &[u8], leaf_version: u8) -> (tweaked:
    Option<TweakedKey>)
    ensures
        match tweaked {
            Some(key) => taproot_tweak(internal_key@, leaf_script@, leaf_version) == Some(
                (key.output_key@, key.odd),
            ),
            None => taproot_tweak(internal_key@, leaf_script@, leaf_version) is None,
        },
{
    let key = bitcoin::XOnlyPublicKey::from_slice(internal_key).ok()?;
    let version = LeafVersion::from_consensus(leaf_version).ok()?;
    let leaf = TapNodeHash::from_script(Script::from_bytes(leaf_script), version);
    let hash = TapTweakHash::from_key_and_tweak(key, Some(leaf));
    let scalar = Scalar::from_be_bytes(bitcoin::hashes::Hash::to_byte_array(hash)).ok()?;
    let (output_key, parity) = key.add_tweak(&Secp256k1::verification_only(), &scalar).ok()?;
    let odd = match parity {
        Parity::Even => false,
        Parity::Odd => true,
    };
    Some(TweakedKey { output_key: output_key.serialize(), odd })
}

/// Builds a version 1 `bitcoin::WitnessProgram` from the key, an address from it
/// with `bitcoin::Address::new`, and formats the address. Trusted: the result is
/// the named address of the two arguments.
#[verifier::external_body]
fn format_p2tr_address(output_key: &[u8; 32], network: Network) -> (address: String)
    ensures
        address@ == p2tr_address(output_key@, network),
{
    let network = match network {
        Network::Bitcoin => bitcoin::Network::Bitcoin,
        Network::Testnet => bitcoin::Network::Testnet,
        Network::Signet => bitcoin::Network::Signet,
        Network::Regtest => bitcoin::Network::Regtest,
    };
    let program = bitcoin::WitnessProgram::new(bitcoin::WitnessVersion::V1, output_key.to_vec());
    bitcoin::Address::new(network, bitcoin::address::Payload::WitnessProgram(program.unwrap()))
        .to_string()
}

impl TapCommitment {
    /// The output key and the control block are those of the internal key and
    /// the leaf script.
    pub open spec fn wf(&self) -> bool {
        &&& self.leaf_version == LEAF_VERSION_TAPSCRIPT
        &&& self.committed(self.internal_key@, self.leaf_script.bytes@)
    }

    /// This is the commitment of the given script under the given key.
    pub open spec fn committed(&self, internal_key: Seq<u8>, leaf_script: Seq<u8>) -> bool {
        &&& self.internal_key@ == internal_key
        &&& self.leaf_script.bytes@ == leaf_script
        &&& self.leaf_version == LEAF_VERSION_TAPSCRIPT
        &&& match tapscript_tweak(internal_key, leaf_script) {
            Some((output_key, odd)) => {
                &&& self.output_key@ == output_key
                &&& self.control_block@ == control_block_bytes(internal_key, odd)
            },
            None => false,
        }
    }

    /// Puts a commitment together from the outcome of the tweak: the control
    /// block is laid out here. Fails with `TreeFinalize` where the tweak had no
    /// result.
    pub fn from_tweak(
        internal_key: [u8; 32],
        leaf_script: RestrictionScript,
        tweaked: Option<TweakedKey>,
    ) -> (made: Result<TapCommitment, CovenantError>)
        ensures
            match made {
                Ok(tap) => {
                    &&& tweaked matches Some(key)
                    &&& tap.internal_key@ == internal_key@
                    &&& tap.leaf_script.bytes@ == leaf_script.bytes@
                    &&& tap.leaf_version == LEAF_VERSION_TAPSCRIPT
                    &&& tap.output_key@ == key.output_key@
                    &&& tap.control_block@ == control_block_bytes(internal_key@, key.odd)
                    &&& tap.control_block@.len() == CONTROL_BLOCK_LEN
                },
                Err(error) => tweaked is None && error == CovenantError::TreeFinalize,
            },
    {
        match tweaked {
            None => Err(CovenantError::TreeFinalize),
            Some(key) => {
                let first: u8 = if key.odd {
                    LEAF_VERSION_TAPSCRIPT + 1
                } else {
                    LEAF_VERSION_TAPSCRIPT
                };
                let mut control_block: Vec<u8> = Vec::new();
                control_block.push(first);
                append_bytes(&mut control_block, internal_key.as_slice());
                Ok(
                    TapCommitment {
                        internal_key,
                        leaf_script,
                        leaf_version: LEAF_VERSION_TAPSCRIPT,
                        output_key: key.output_key,
                        control_block,
                    },
                )
            },
        }
    }

    /// Whether two commitments are the same, field by field.
    pub fn same_as(&self, other: &TapCommitment) -> (same: bool)
        ensures
            same == {
                &&& self.internal_key@ == other.internal_key@
                &&& self.leaf_script.bytes@ == other.leaf_script.bytes@
                &&& self.leaf_version == other.leaf_version
                &&& self.output_key@ == other.output_key@
                &&& self.control_block@ == other.control_block@
            },
    {
        bytes_equal(self.internal_key.as_slice(), other.internal_key.as_slice())
            && bytes_equal(self.leaf_script.bytes.as_slice(), other.leaf_script.bytes.as_slice())
            && self.leaf_version == other.leaf_version
            && bytes_equal(self.output_key.as_slice(), other.output_key.as_slice())
            && bytes_equal(self.control_block.as_slice(), other.control_block.as_slice())
    }

    /// The witness stack that spends the committed output by its script: the
    /// script first, then the control block. No signature is needed.
    pub fn witness_stack(&self) -> (stack: Vec<Vec<u8>>)
        ensures
            stack@.len() == 2,
            stack@[0]@ == self.leaf_script.bytes@,
            stack@[1]@ == self.control_block@,
    {
        let mut stack: Vec<Vec<u8>> = Vec::new();
        stack.push(copy_bytes(self.leaf_script.bytes.as_slice()));
        stack.push(copy_bytes(self.control_block.as_slice()));
        stack
    }
}

impl Clone for TapCommitment {
    fn clone(&self) -> (copy: TapCommitment)
        ensures
            copy.internal_key@ == self.internal_key@,
            copy.leaf_script.bytes@ == self.leaf_script.bytes@,
            copy.leaf_version == self.leaf_version,
            copy.output_key@ == self.output_key@,
            copy.control_block@ == self.control_block@,
    {
        TapCommitment {
            internal_key: self.internal_key,
            leaf_script: self.leaf_script.clone(),
            leaf_version: self.leaf_version,
            output_key: self.output_key,
            control_block: copy_bytes(self.control_block.as_slice()),
        }
    }
}

/// Commits `leaf_script` as the only leaf of a taproot tree under
/// `internal_key`. Fails with `TreeFinalize` where the key is no valid x-only
/// public key or the tweak has no result, which for a valid key should not
/// happen.
pub fn commit_single_leaf(internal_key: [u8; 32], leaf_script: RestrictionScript) -> (made: Result<
    TapCommitment,
    CovenantError,
>)
    ensures
        match made {
            Ok(tap) => tap.committed(internal_key@, leaf_script.bytes@) && tap.control_block@.len()
                == CONTROL_BLOCK_LEN,
            Err(error) => {
                &&& tapscript_tweak(internal_key@, leaf_script.bytes@) is None
                &&& error == CovenantError::TreeFinalize
            },
        },
{
    let tweaked = tweak_single_leaf(
        &internal_key,
        leaf_script.bytes.as_slice(),
        LEAF_VERSION_TAPSCRIPT,
    );
    TapCommitment::from_tweak(internal_key, leaf_script, tweaked)
}

/// The address that pays to `output_key` on `network`.
pub fn derive_address(output_key: &[u8; 32], network: Network) -> (address: String)
    ensures
        address@ == p2tr_address(output_key@, network),
{
    format_p2tr_address(output_key, network)
}

} // verus!
