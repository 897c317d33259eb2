//! The small scripts of the library: the restriction script around a
//! commitment digest, the taproot output script, and the anchor output.

use crate::bytes::copy_bytes;
use crate::error::CovenantError;
use crate::output::{OutputSpec, OutputSpecView};
use vstd::prelude::*;

verus! {

/// The opcode that checks the spending transaction against a committed digest
/// (`OP_NOP4` until the chain gives it that meaning).
pub const RESTRICTION_OPCODE: u8 = 0xb3;

/// The opcode that pushes the number 1; as the first byte of an output script it
/// is witness version 1.
pub const OP_PUSHNUM_1: u8 = 0x51;

/// The length of a commitment digest.
pub const DIGEST_LEN: usize = 32;

/// The longest data that a single length byte pushes.
pub const MAX_DIRECT_PUSH: usize = 75;

/// The value of the anchor output.
pub const ANCHOR_VALUE: u64 = 330;

/// A push of at most 75 bytes: the length in one byte, then the data.
pub open spec fn push_data(data: Seq<u8>) -> Seq<u8> {
    seq![data.len() as u8] + data
}

/// The restriction script of a digest: a push of the digest, then the
/// restriction opcode.
pub open spec fn restriction_script(digest: Seq<u8>) -> Seq<u8> {
    push_data(digest).push(RESTRICTION_OPCODE)
}

/// The output script that pays to a taproot output key: witness version 1, then
/// a push of the key.
pub open spec fn p2tr_script(output_key: Seq<u8>) -> Seq<u8> {
    seq![OP_PUSHNUM_1] + push_data(output_key)
}

/// The anchor's output script: the number 1, then a push of the two bytes
/// 0x4e 0x73.
pub open spec fn anchor_script() -> Seq<u8> {
    seq![OP_PUSHNUM_1] + push_data(seq![0x4eu8, 0x73u8])
}

/// A script that lets an output be spent only by a transaction with the
/// committed outputs. One-to-one with the digest it was built from.
#[derive(Debug, PartialEq, Eq)]
pub struct RestrictionScript {
    pub bytes: Vec<u8>,
}

impl RestrictionScript {
    /// The script is a push of some 32-byte digest followed by the restriction
    /// opcode.
    pub open spec fn wf(&self) -> bool {
        &&& self.bytes@.len() == DIGEST_LEN + 2
        &&& self.bytes@ == restriction_script(self.digest())
    }

    /// The digest that the script pushes.
    pub open spec fn digest(&self) -> Seq<u8> {
        self.bytes@.subrange(1, 1 + DIGEST_LEN as int)
    }
}

impl Clone for RestrictionScript {
    fn clone(&self) -> (copy: RestrictionScript)
        ensures
            copy.bytes@ == self.bytes@,
    {
        RestrictionScript { bytes: copy_bytes(self.bytes.as_slice()) }
    }
}

/// Makes `bitcoin::script::Builder` a type that verified code can hold. Nothing
/// inside a builder is visible; what it holds goes by the name below.
#[verifier::external_type_specification]
#[verifier::external_body]
pub struct ExBuilder(bitcoin::script::Builder);

/// The bytes of the script that a `bitcoin::script::Builder` holds.
pub uninterp spec fn built_script(builder: bitcoin::script::Builder) -> Seq<u8>;

/// Calls `bitcoin::script::Builder::new`. Trusted: the new builder holds the
/// empty script.
#[verifier::external_body]
fn builder_new() -> (builder: bitcoin::script::Builder)
    ensures
        built_script(builder) == Seq::<u8>::empty(),
{
    bitcoin::script::Builder::new()
}

/// Calls `bitcoin::script::Builder::push_slice`. Trusted: for data of at most 75
/// bytes, the script grows by one byte that holds the data's length, then by
/// the data.
#[verifier::external_body]
fn builder_push_slice(builder: bitcoin::script::Builder, data: &[u8]) -> (grown:
    bitcoin::script::Builder)
    requires
        data@.len() <= MAX_DIRECT_PUSH,
    ensures
        built_script(grown) == built_script(builder) + push_data(data@),
{
    let push: &bitcoin::script::PushBytes = data.try_into().unwrap();
    builder.push_slice(push)
}

/// Calls `bitcoin::script::Builder::push_opcode` with the opcode of the given
/// byte. Trusted: the script grows by that byte.
#[verifier::external_body]
fn builder_push_opcode(builder: bitcoin::script::Builder, opcode: u8) -> (grown:
    bitcoin::script::Builder)
    ensures
        built_script(grown) == built_script(builder).push(opcode),
{
    builder.push_opcode(bitcoin::Opcode::from(opcode))
}

/// Calls `bitcoin::script::Builder::into_bytes`. Trusted: the result is the
/// script that the builder holds.
#[verifier::external_body]
fn builder_into_bytes(builder: bitcoin::script::Builder) -> (bytes: Vec<u8>)
    ensures
        bytes@ == built_script(builder),
{
    builder.into_bytes()
}

/// Wraps a commitment digest into its restriction script. Fails with
/// `InvalidDigestLength` unless the digest is exactly 32 bytes long.
pub fn build_leaf(digest: &[u8]) -> (built: Result<RestrictionScript, CovenantError>)
    ensures
        match built {
            Ok(script) => {
                &&& digest@.len() == DIGEST_LEN
                &&& script.bytes@ == restriction_script(digest@)
                &&& script.digest() == digest@
                &&& script.wf()
            },
            Err(error) => {
                &&& digest@.len() != DIGEST_LEN
                &&& error == CovenantError::InvalidDigestLength
            },
        },
{
    if digest.len() != DIGEST_LEN {
        return Err(CovenantError::InvalidDigestLength);
    }
    Ok(push_digest(digest))
}

/// The restriction script of a digest whose type tells its length.
pub fn leaf_script(digest: &[u8; 32]) -> (script: RestrictionScript)
    ensures
        script.bytes@ == restriction_script(digest@),
        script.digest() == digest@,
        script.wf(),
        script.bytes@.len() == 34,
{
    push_digest(digest.as_slice())
}

/// The restriction script of a digest of 32 bytes.
fn push_digest(digest: &[u8]) -> (script: RestrictionScript)
    requires
        digest@.len() == DIGEST_LEN,
    ensures
        script.bytes@ == restriction_script(digest@),
        script.digest() == digest@,
        script.wf(),
        script.bytes@.len() == 34,
{
    let builder = builder_new();
    let builder = builder_push_slice(builder, digest);
    let builder = builder_push_opcode(builder, RESTRICTION_OPCODE);
    let bytes = builder_into_bytes(builder);
    let script = RestrictionScript { bytes };
    proof {
        assert(script.digest() =~= digest@);
        assert(script.bytes@ =~= restriction_script(digest@));
    }
    script
}

/// The output script that pays to the given taproot output key.
pub fn p2tr_script_pubkey(output_key: &[u8; 32]) -> (script: Vec<u8>)
    ensures
        script@ == p2tr_script(output_key@),
        script@.len() == 34,
{
    let builder = builder_new();
    let builder = builder_push_opcode(builder, OP_PUSHNUM_1);
    let builder = builder_push_slice(builder, output_key.as_slice());
    let script = builder_into_bytes(builder);
    proof {
        assert(script@ =~= p2tr_script(output_key@));
    }
    script
}

/// The anchor output: a small fixed output that anyone can spend, by which a
/// later transaction can add fee.
pub fn anchor_output() -> (anchor: OutputSpec)
    ensures
        anchor@ == (OutputSpecView { value: ANCHOR_VALUE, destination: anchor_script() }),
        anchor_script() == seq![0x51u8, 0x02u8, 0x4eu8, 0x73u8],
{
    let pushed: [u8; 2] = [0x4e, 0x73];
    let builder = builder_new();
    let builder = builder_push_opcode(builder, OP_PUSHNUM_1);
    let builder = builder_push_slice(builder, pushed.as_slice());
    let destination = builder_into_bytes(builder);
    proof {
        assert(pushed@ =~= seq![0x4eu8, 0x73u8]);
        assert(destination@ =~= anchor_script());
        assert(anchor_script() =~= seq![0x51u8, 0x02u8, 0x4eu8, 0x73u8]);
    }
    OutputSpec { value: ANCHOR_VALUE, destination }
}

/// A restriction script belongs to one digest only: two digests of 32 bytes
/// with the same restriction script are the same digest.
pub proof fn lemma_restriction_script_injective(first: Seq<u8>, second: Seq<u8>)
    requires
        first.len() == DIGEST_LEN,
        second.len() == DIGEST_LEN,
        restriction_script(first) == restriction_script(second),
    ensures
        first == second,
{
    assert(restriction_script(first).subrange(1, 33) =~= first);
    assert(restriction_script(second).subrange(1, 33) =~= second);
}

} // verus!
