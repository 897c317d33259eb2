//! The commitment hasher: from an ordered list of outputs, and optionally a
//! sequence number, to the 32-byte digest that a restriction script checks.

use crate::bytes::{append_bytes, bytes_equal};
use crate::encoding::{encodable, encode_all, encode_outputs, lemma_encode_outputs_injective};
use crate::output::{copy_outputs, output_views, OutputSpec, OutputSpecView};
use vstd::bytes::*;
use vstd::prelude::*;

verus! {

/// The transaction version that every template commits to.
pub const TEMPLATE_VERSION: i32 = 3;

/// The lock time that every template commits to.
pub const TEMPLATE_LOCK_TIME: u32 = 0;

/// A template has exactly one input.
pub const TEMPLATE_INPUT_COUNT: u32 = 1;

/// The index of the input that carries the commitment.
pub const TEMPLATE_INPUT_INDEX: u32 = 0;

/// The sequence number of the input where none is asked for: replaceable, with
/// no relative lock time.
pub const DEFAULT_SEQUENCE: u32 = 0xFFFF_FFFD;

/// The SHA-256 digest of a byte string.
pub uninterp spec fn sha256(data: Seq<u8>) -> Seq<u8>;

/// The sequence number that a template commits to.
pub open spec fn effective_sequence(sequence_override: Option<u32>) -> u32 {
    match sequence_override {
        Some(sequence) => sequence,
        None => DEFAULT_SEQUENCE,
    }
}

/// The bytes that are hashed into the digest: version, lock time and input count,
/// the hash of the input's sequence number, the output count, the hash of the
/// encoded outputs, and the input index. Integers are little-endian, 4 bytes each
/// (the version is signed, and not negative).
pub open spec fn commit_preimage(
    sequence_hash: Seq<u8>,
    output_count: u32,
    outputs_hash: Seq<u8>,
) -> Seq<u8> {
    spec_u32_to_le_bytes(TEMPLATE_VERSION as u32) + spec_u32_to_le_bytes(TEMPLATE_LOCK_TIME)
        + spec_u32_to_le_bytes(TEMPLATE_INPUT_COUNT) + sequence_hash + spec_u32_to_le_bytes(
        output_count,
    ) + outputs_hash + spec_u32_to_le_bytes(TEMPLATE_INPUT_INDEX)
}

/// The bytes hashed for a list of outputs and a sequence override.
pub open spec fn template_preimage(
    outputs: Seq<OutputSpecView>,
    sequence_override: Option<u32>,
) -> Seq<u8> {
    commit_preimage(
        sha256(spec_u32_to_le_bytes(effective_sequence(sequence_override))),
        outputs.len() as u32,
        sha256(encode_outputs(outputs)),
    )
}

/// The commitment digest of a list of outputs and a sequence override.
pub open spec fn commit_digest(
    outputs: Seq<OutputSpecView>,
    sequence_override: Option<u32>,
) -> Seq<u8> {
    sha256(template_preimage(outputs, sequence_override))
}

/// Calls `bitcoin::hashes::sha256::Hash::hash` and takes the digest's bytes.
/// Trusted: the result is the SHA-256 digest of `data`.
#[verifier::external_body]
fn sha256_digest(data: &[u8]) -> (digest: [u8; 32])
    ensures
        digest@ == sha256(data@),
{
    let hash = <bitcoin::hashes::sha256::Hash as bitcoin::hashes::Hash>::hash(data);
    <bitcoin::hashes::sha256::Hash as bitcoin::hashes::Hash>::to_byte_array(hash)
}

/// The hash of the sequence number that a template commits to.
pub fn sequence_hash(sequence_override: Option<u32>) -> (digest: [u8; 32])
    ensures
        digest@ == sha256(spec_u32_to_le_bytes(effective_sequence(sequence_override))),
{
    let sequence: u32 = match sequence_override {
        Some(sequence) => sequence,
        None => DEFAULT_SEQUENCE,
    };
    let bytes = u32_to_le_bytes(sequence);
    sha256_digest(bytes.as_slice())
}

/// The hash of the encoded outputs.
pub fn outputs_hash(outputs: &[OutputSpec]) -> (digest: [u8; 32])
    ensures
        digest@ == sha256(encode_outputs(output_views(outputs@))),
{
    let bytes = encode_all(outputs);
    sha256_digest(bytes.as_slice())
}

/// Lays out the bytes to be hashed, given the two inner hashes and the number
/// of outputs.
pub fn preimage(sequence_hash: &[u8; 32], output_count: u32, outputs_hash: &[u8; 32]) -> (bytes:
    Vec<u8>)
    ensures
        bytes@ == commit_preimage(sequence_hash@, output_count, outputs_hash@),
        bytes@.len() == 84,
{
    let mut bytes = u32_to_le_bytes(TEMPLATE_VERSION as u32);
    let lock_time = u32_to_le_bytes(TEMPLATE_LOCK_TIME);
    let input_count = u32_to_le_bytes(TEMPLATE_INPUT_COUNT);
    let count = u32_to_le_bytes(output_count);
    let input_index = u32_to_le_bytes(TEMPLATE_INPUT_INDEX);
    append_bytes(&mut bytes, lock_time.as_slice());
    append_bytes(&mut bytes, input_count.as_slice());
    append_bytes(&mut bytes, sequence_hash.as_slice());
    append_bytes(&mut bytes, count.as_slice());
    append_bytes(&mut bytes, outputs_hash.as_slice());
    append_bytes(&mut bytes, input_index.as_slice());
    bytes
}

/// The commitment digest of `outputs`, in this order, with the default sequence
/// number or the one given. The same arguments always give the same digest.
///
/// The output count is committed in 4 bytes; of a longer list its low 32 bits.
pub fn commit(outputs: &[OutputSpec], sequence_override: Option<u32>) -> (digest: [u8; 32])
    ensures
        digest@ == commit_digest(output_views(outputs@), sequence_override),
{
    let sequence = sequence_hash(sequence_override);
    let hashed_outputs = outputs_hash(outputs);
    let count: u32 = #[verifier::truncate]
    (outputs.len() as u32);
    let bytes = preimage(&sequence, count, &hashed_outputs);
    sha256_digest(bytes.as_slice())
}

/// A digest together with what it was computed from. The digest is a function
/// of the outputs and the sequence override: computing it again from the same
/// values gives the same digest.
#[derive(Debug, PartialEq, Eq)]
pub struct TemplateCommitment {
    pub digest: [u8; 32],
    pub committed_outputs: Vec<OutputSpec>,
    pub sequence_override: Option<u32>,
}

impl TemplateCommitment {
    /// The stored digest is the digest of the stored outputs and sequence
    /// override.
    pub open spec fn wf(&self) -> bool {
        self.digest@ == commit_digest(
            output_views(self.committed_outputs@),
            self.sequence_override,
        )
    }

    /// Commits to `outputs`, in this order.
    pub fn new(outputs: Vec<OutputSpec>, sequence_override: Option<u32>) -> (commitment:
        TemplateCommitment)
        ensures
            commitment.wf(),
            commitment.committed_outputs@ == outputs@,
            commitment.sequence_override == sequence_override,
    {
        let digest = commit(outputs.as_slice(), sequence_override);
        TemplateCommitment { digest, committed_outputs: outputs, sequence_override }
    }

    /// Whether `outputs`, hashed again, give the stored digest.
    pub fn matches(&self, outputs: &[OutputSpec]) -> (same: bool)
        ensures
            same == (self.digest@ == commit_digest(
                output_views(outputs@),
                self.sequence_override,
            )),
    {
        let digest = commit(outputs, self.sequence_override);
        bytes_equal(self.digest.as_slice(), digest.as_slice())
    }

    /// Whether the stored digest is that of the stored outputs.
    pub fn verify(&self) -> (ok: bool)
        ensures
            ok == self.wf(),
    {
        self.matches(self.committed_outputs.as_slice())
    }
}

impl Clone for TemplateCommitment {
    fn clone(&self) -> (copy: TemplateCommitment)
        ensures
            copy.digest@ == self.digest@,
            output_views(copy.committed_outputs@) == output_views(self.committed_outputs@),
            copy.sequence_override == self.sequence_override,
    {
        TemplateCommitment {
            digest: self.digest,
            committed_outputs: copy_outputs(self.committed_outputs.as_slice()),
            sequence_override: self.sequence_override,
        }
    }
}

/// Two different byte strings with the same SHA-256 digest.
pub open spec fn sha256_collision(first: Seq<u8>, second: Seq<u8>) -> bool {
    first != second && sha256(first) == sha256(second)
}

/// A list of outputs with the outputs at two places exchanged.
pub open spec fn swapped(outputs: Seq<OutputSpecView>, i: int, j: int) -> Seq<OutputSpecView> {
    outputs.update(i, outputs[j]).update(j, outputs[i])
}

/// Determinism: the digest is a function of the ordered outputs and the
/// sequence override, so hashing the same values twice gives the same digest.
pub proof fn lemma_commit_deterministic(
    first: Seq<OutputSpecView>,
    first_sequence: Option<u32>,
    second: Seq<OutputSpecView>,
    second_sequence: Option<u32>,
)
    requires
        first == second,
        first_sequence == second_sequence,
    ensures
        commit_digest(first, first_sequence) == commit_digest(second, second_sequence),
{
}

/// Order sensitivity: exchanging two outputs of different value changes the
/// bytes that are hashed, and with them the digest, unless SHA-256 collides.
pub proof fn lemma_commit_order_sensitive(
    outputs: Seq<OutputSpecView>,
    i: int,
    j: int,
    sequence_override: Option<u32>,
)
    requires
        0 <= i < outputs.len(),
        0 <= j < outputs.len(),
        outputs[i].value != outputs[j].value,
        forall|k: int| 0 <= k < outputs.len() ==> encodable(#[trigger] outputs[k]),
        !sha256_collision(encode_outputs(swapped(outputs, i, j)), encode_outputs(outputs)),
        !sha256_collision(
            template_preimage(swapped(outputs, i, j), sequence_override),
            template_preimage(outputs, sequence_override),
        ),
    ensures
        encode_outputs(swapped(outputs, i, j)) != encode_outputs(outputs),
        commit_digest(swapped(outputs, i, j), sequence_override) != commit_digest(
            outputs,
            sequence_override,
        ),
{
    let exchanged = swapped(outputs, i, j);
    assert(exchanged[i] == outputs[j]);
    assert(exchanged != outputs);
    assert forall|k: int| 0 <= k < exchanged.len() implies encodable(#[trigger] exchanged[k]) by {
        if k == i {
            assert(encodable(outputs[j]));
        } else if k == j {
            assert(encodable(outputs[i]));
        } else {
            assert(encodable(outputs[k]));
        }
    }
    lemma_commit_binding(exchanged, outputs, sequence_override);
}

/// Two lists of outputs that differ are hashed from different bytes: their
/// digests differ unless SHA-256 collides, on the encoded outputs or on the
/// bytes laid out around their hash.
pub proof fn lemma_commit_binding(
    first: Seq<OutputSpecView>,
    second: Seq<OutputSpecView>,
    sequence_override: Option<u32>,
)
    requires
        first != second,
        first.len() == second.len(),
        forall|i: int| 0 <= i < first.len() ==> encodable(#[trigger] first[i]),
        forall|i: int| 0 <= i < second.len() ==> encodable(#[trigger] second[i]),
        !sha256_collision(encode_outputs(first), encode_outputs(second)),
        !sha256_collision(
            template_preimage(first, sequence_override),
            template_preimage(second, sequence_override),
        ),
    ensures
        encode_outputs(first) != encode_outputs(second),
        commit_digest(first, sequence_override) != commit_digest(second, sequence_override),
{
    if encode_outputs(first) == encode_outputs(second) {
        lemma_encode_outputs_injective(first, second);
    }
    let head = spec_u32_to_le_bytes(TEMPLATE_VERSION as u32) + spec_u32_to_le_bytes(
        TEMPLATE_LOCK_TIME,
    ) + spec_u32_to_le_bytes(TEMPLATE_INPUT_COUNT) + sha256(
        spec_u32_to_le_bytes(effective_sequence(sequence_override)),
    ) + spec_u32_to_le_bytes(first.len() as u32);
    let tail = spec_u32_to_le_bytes(TEMPLATE_INPUT_INDEX);
    let hash_first = sha256(encode_outputs(first));
    let hash_second = sha256(encode_outputs(second));
    let bytes_first = template_preimage(first, sequence_override);
    let bytes_second = template_preimage(second, sequence_override);
    assert(bytes_first == head + hash_first + tail);
    assert(bytes_second == head + hash_second + tail);
    if bytes_first == bytes_second {
        let from = head.len() as int;
        let to = from + hash_first.len();
        assert(hash_first.len() == hash_second.len());
        assert(bytes_first.subrange(from, to) =~= hash_first);
        assert(bytes_second.subrange(from, to) =~= hash_second);
    }
}

} // verus!
