//! The transaction that spends a committed output, and its serialization.

use crate::encoding::{compact_size, compact_size_len, encode_outputs};
use crate::error::CovenantError;
use crate::hasher::{
    commit_digest, effective_sequence, DEFAULT_SEQUENCE, TEMPLATE_LOCK_TIME, TEMPLATE_VERSION,
};
use crate::output::{output_views, OutputSpec, OutputSpecView};
use crate::script::{leaf_script, restriction_script};
use crate::taproot::{commit_single_leaf, control_block_bytes, tapscript_tweak};
use crate::tree::{child_outputs, outputs_of, CovenantNode};
use bitcoin::{Amount, ScriptBuf, Sequence, Transaction, TxIn, TxOut, Witness};
use vstd::bytes::*;
use vstd::prelude::*;

verus! {

/// A reference to an output of an earlier transaction. The transaction id is in
/// the byte order in which it is serialized.
#[derive(Debug, Clone, Copy, PartialEq, Eq)]
pub struct OutPoint {
    pub txid: [u8; 32],
    pub vout: u32,
}

impl OutPoint {
    /// The reference that refers to nothing: an all-zero id and the largest
    /// index. It stands in a template until the funding transaction is known.
    pub fn null() -> (outpoint: OutPoint)
        ensures
            outpoint.txid@ == Seq::new(32, |i: int| 0u8),
            outpoint.vout == u32::MAX,
    {
        let outpoint = OutPoint { txid: [0u8; 32], vout: u32::MAX };
        proof {
            assert(outpoint.txid@ =~= Seq::new(32, |i: int| 0u8));
        }
        outpoint
    }
}

/// A transaction with one input. The spends of this library carry a witness
/// stack and an empty signature script.
#[derive(Debug, PartialEq, Eq)]
pub struct SpendTx {
    pub version: i32,
    pub lock_time: u32,
    pub previous_output: OutPoint,
    pub script_sig: Vec<u8>,
    pub sequence: u32,
    pub outputs: Vec<OutputSpec>,
    pub witness: Vec<Vec<u8>>,
}

/// What a [`SpendTx`] stands for in contracts.
pub struct SpendTxView {
    pub version: i32,
    pub lock_time: u32,
    pub txid: Seq<u8>,
    pub vout: u32,
    pub script_sig: Seq<u8>,
    pub sequence: u32,
    pub outputs: Seq<OutputSpecView>,
    pub witness: Seq<Seq<u8>>,
}

/// The byte strings of a witness stack, bottom first.
pub open spec fn stack_views(stack: Seq<Vec<u8>>) -> Seq<Seq<u8>> {
    stack.map_values(|item: Vec<u8>| item@)
}

impl View for SpendTx {
    type V = SpendTxView;

    open spec fn view(&self) -> SpendTxView {
        SpendTxView {
            version: self.version,
            lock_time: self.lock_time,
            txid: self.previous_output.txid@,
            vout: self.previous_output.vout,
            script_sig: self.script_sig@,
            sequence: self.sequence,
            outputs: output_views(self.outputs@),
            witness: stack_views(self.witness@),
        }
    }
}

/// The items of a witness stack, each with its length in front.
pub open spec fn encode_stack_items(stack: Seq<Seq<u8>>) -> Seq<u8>
    decreases stack.len(),
{
    if stack.len() == 0 {
        Seq::empty()
    } else {
        encode_stack_items(stack.drop_last()) + compact_size(stack.last().len()) + stack.last()
    }
}

/// Whether the items of a witness stack, each with its length in front, take
/// at most as many bytes as 32 bits count.
pub open spec fn stack_fits(stack: Seq<Seq<u8>>) -> bool {
    encode_stack_items(stack).len() <= u32::MAX
}

/// The chain's serialization of a transaction with one input: the version;
/// where the witness stack is not empty, a marker byte 0 and a flag byte 1; the
/// number of inputs, the referenced output, the signature script and the
/// sequence number; the number of outputs and the outputs; where the stack is
/// not empty, the number of its items and the items; the lock time. Integers
/// are little-endian, counts and lengths of variable length.
pub open spec fn serialized_transaction(tx: SpendTxView) -> Seq<u8> {
    let marker = if tx.witness.len() > 0 {
        seq![0x00u8, 0x01u8]
    } else {
        Seq::empty()
    };
    let witness = if tx.witness.len() > 0 {
        compact_size(tx.witness.len()) + encode_stack_items(tx.witness)
    } else {
        Seq::empty()
    };
    spec_u32_to_le_bytes(tx.version as u32) + marker + compact_size(1) + tx.txid
        + spec_u32_to_le_bytes(tx.vout) + compact_size(tx.script_sig.len()) + tx.script_sig
        + spec_u32_to_le_bytes(tx.sequence)
        + compact_size(tx.outputs.len()) + encode_outputs(tx.outputs) + witness
        + spec_u32_to_le_bytes(tx.lock_time)
}

/// The transaction that spends the output of a commitment node: its one input
/// refers to `funding`, its outputs are the outputs of the node's children in
/// order, and its witness stack is the restriction script, then the control
/// block. It has a meaning for nodes above the leaves only.
pub open spec fn spend_view(funding: OutPoint, node: CovenantNode) -> SpendTxView {
    SpendTxView {
        version: TEMPLATE_VERSION,
        lock_time: TEMPLATE_LOCK_TIME,
        txid: funding.txid@,
        vout: funding.vout,
        script_sig: Seq::empty(),
        sequence: effective_sequence(node->commitment.sequence_override),
        outputs: outputs_of(node->children@),
        witness: seq![node->tap.leaf_script.bytes@, node->tap.control_block@],
    }
}

/// The transaction that spends the commitment to `outputs` made under
/// `internal_key`, as far as these tell it: its witness stack is the
/// restriction script of the outputs' digest, then the control block. `None`
/// where the taproot tweak has no result.
pub open spec fn committed_spend(
    txid: Seq<u8>,
    vout: u32,
    outputs: Seq<OutputSpecView>,
    internal_key: Seq<u8>,
) -> Option<SpendTxView> {
    let script = restriction_script(commit_digest(outputs, None));
    match tapscript_tweak(internal_key, script) {
        Some((_, odd)) => Some(
            SpendTxView {
                version: TEMPLATE_VERSION,
                lock_time: TEMPLATE_LOCK_TIME,
                txid,
                vout,
                script_sig: Seq::empty(),
                sequence: DEFAULT_SEQUENCE,
                outputs,
                witness: seq![script, control_block_bytes(internal_key, odd)],
            },
        ),
        None => None,
    }
}

/// Whether the spend of the node's output would keep what was committed: the
/// node stores a digest (a leaf stores none), the outputs of its children hash
/// to it, and its taproot commitment is that of the digest's restriction
/// script under the node's internal key.
pub open spec fn commitment_holds(node: CovenantNode) -> bool {
    &&& node is Internal
    &&& commit_digest(outputs_of(node->children@), node->commitment.sequence_override)
        == node->commitment.digest@
    &&& node->tap.committed(
        node->tap.internal_key@,
        restriction_script(node->commitment.digest@),
    )
}

/// Builds a `bitcoin::Transaction` with the same fields and calls
/// `bitcoin::consensus::serialize` on it. Trusted: the result is the
/// serialization laid out above. `bitcoin::Witness::from_slice` keeps an offset
/// of 32 bits for each item, which is why the stack has to fit.
#[verifier::external_body]
fn consensus_serialize(tx: &SpendTx) -> (raw: Vec<u8>)
    requires
        stack_fits(tx@.witness),
    ensures
        raw@ == serialized_transaction(tx@),
{
    let txid = bitcoin::hashes::Hash::from_byte_array(tx.previous_output.txid);
    let previous_output = bitcoin::OutPoint { txid, vout: tx.previous_output.vout };
    let witness = Witness::from_slice(&tx.witness);
    let sequence = Sequence(tx.sequence);
    let script_sig = ScriptBuf::from_bytes(tx.script_sig.clone());
    let input = vec![TxIn { previous_output, script_sig, sequence, witness }];
    let to_txout = |o: &OutputSpec| TxOut {
        value: Amount::from_sat(o.value),
        script_pubkey: ScriptBuf::from_bytes(o.destination.clone()),
    };
    let output = tx.outputs.iter().map(to_txout).collect();
    let version = bitcoin::transaction::Version(tx.version);
    let lock_time = bitcoin::absolute::LockTime::from_consensus(tx.lock_time);
    bitcoin::consensus::serialize(&Transaction { version, lock_time, input, output })
}

impl SpendTx {
    /// A transaction of the template's version and lock time, with an empty
    /// signature script.
    pub fn template(
        previous_output: OutPoint,
        sequence: u32,
        outputs: Vec<OutputSpec>,
        witness: Vec<Vec<u8>>,
    ) -> (tx: SpendTx)
        ensures
            tx.version == TEMPLATE_VERSION,
            tx.lock_time == TEMPLATE_LOCK_TIME,
            tx.previous_output == previous_output,
            tx.script_sig@ == Seq::<u8>::empty(),
            tx.sequence == sequence,
            tx.outputs@ == outputs@,
            tx.witness@ == witness@,
    {
        SpendTx {
            version: TEMPLATE_VERSION,
            lock_time: TEMPLATE_LOCK_TIME,
            previous_output,
            script_sig: Vec::new(),
            sequence,
            outputs,
            witness,
        }
    }

    /// Whether the witness stack is small enough to be serialized: its items,
    /// each with its length in front, take at most as many bytes as 32 bits
    /// count.
    pub fn witness_fits(&self) -> (fits: bool)
        ensures
            fits == stack_fits(self@.witness),
    {
        let ghost stack = stack_views(self.witness@);
        let mut size: u64 = 0;
        let mut i: usize = 0;
        while i < self.witness.len()
            invariant
                i <= self.witness@.len(),
                stack == stack_views(self.witness@),
                size == encode_stack_items(stack.take(i as int)).len(),
                size <= u32::MAX,
            decreases self.witness@.len() - i,
        {
            let length: usize = self.witness[i].len();
            let prefix: u64 = compact_size_len(length);
            proof {
                assert(stack.take(i + 1).drop_last() == stack.take(i as int));
                assert(stack.take(i + 1).last() == self.witness@[i as int]@);
                lemma_stack_items_grow(stack, i + 1);
            }
            if length as u64 > u32::MAX as u64 - size || prefix > u32::MAX as u64 - size
                - length as u64 {
                return false;
            }
            size = size + prefix + length as u64;
            i += 1;
        }
        proof {
            assert(stack.take(self.witness@.len() as int) == stack);
        }
        true
    }

    /// The transaction as it goes over the wire.
    pub fn serialize(&self) -> (raw: Vec<u8>)
        requires
            stack_fits(self@.witness),
        ensures
            raw@ == serialized_transaction(self@),
    {
        consensus_serialize(self)
    }
}

/// Builds the transaction that spends the output of `node`, funded at
/// `funding`. Before anything is built, the outputs are hashed again and the
/// taproot commitment is derived again from the digest: where either differs
/// from what the node stores, or the node is a leaf and stores nothing, the
/// result is `CommitmentMismatch`.
pub fn spend_transaction(funding: OutPoint, node: &CovenantNode) -> (built: Result<
    SpendTx,
    CovenantError,
>)
    ensures
        match built {
            Ok(tx) => {
                &&& commitment_holds(*node)
                &&& tx@ == spend_view(funding, *node)
                &&& stack_fits(tx@.witness)
            },
            Err(error) => !commitment_holds(*node) && error == CovenantError::CommitmentMismatch,
        },
{
    match node {
        CovenantNode::Leaf(_) => Err(CovenantError::CommitmentMismatch),
        CovenantNode::Internal { children, commitment, tap, .. } => {
            let outputs = child_outputs(children.as_slice());
            if !commitment.matches(outputs.as_slice()) {
                return Err(CovenantError::CommitmentMismatch);
            }
            let script = leaf_script(&commitment.digest);
            let derived = match commit_single_leaf(tap.internal_key, script) {
                Ok(derived) => derived,
                Err(_) => {
                    return Err(CovenantError::CommitmentMismatch);
                },
            };
            if !tap.same_as(&derived) {
                return Err(CovenantError::CommitmentMismatch);
            }
            let sequence: u32 = match commitment.sequence_override {
                Some(sequence) => sequence,
                None => DEFAULT_SEQUENCE,
            };
            let witness = tap.witness_stack();
            proof {
                assert(stack_views(witness@) =~= seq![
                    tap.leaf_script.bytes@,
                    tap.control_block@,
                ]);
                lemma_commitment_witness_fits(tap.leaf_script.bytes@, tap.control_block@);
            }
            Ok(SpendTx::template(funding, sequence, outputs, witness))
        },
    }
}

/// Assembles the spend of the output of `node`, funded at `funding`, as raw
/// transaction bytes. Fails with `CommitmentMismatch`, before anything could
/// be broadcast, where the outputs do not hash to the node's digest (a leaf
/// stores no digest).
pub fn assemble_spend(funding: OutPoint, node: &CovenantNode) -> (raw: Result<
    Vec<u8>,
    CovenantError,
>)
    ensures
        match raw {
            Ok(bytes) => commitment_holds(*node) && bytes@ == serialized_transaction(
                spend_view(funding, *node),
            ),
            Err(error) => !commitment_holds(*node) && error == CovenantError::CommitmentMismatch,
        },
{
    match spend_transaction(funding, node) {
        Ok(tx) => Ok(tx.serialize()),
        Err(error) => Err(error),
    }
}

/// Round trip: a node that agrees with its children can always be spent, and
/// the outputs of the spend, hashed again, give the digest that the node
/// stores. The spend is the one that the children's outputs and the internal
/// key tell.
pub proof fn lemma_spend_round_trip(funding: OutPoint, node: CovenantNode)
    requires
        node.joined(),
        node is Internal,
    ensures
        commitment_holds(node),
        commit_digest(spend_view(funding, node).outputs, None) == node->commitment.digest@,
        committed_spend(
            funding.txid@,
            funding.vout,
            outputs_of(node->children@),
            node->tap.internal_key@,
        ) == Some(spend_view(funding, node)),
{
}

/// The witness of a commitment, a script of 34 bytes and a control block of 33,
/// takes 69 bytes with the lengths in front.
pub proof fn lemma_commitment_witness_fits(script: Seq<u8>, control_block: Seq<u8>)
    requires
        script.len() == 34,
        control_block.len() == 33,
    ensures
        encode_stack_items(seq![script, control_block]).len() == 69,
        stack_fits(seq![script, control_block]),
{
    let stack = seq![script, control_block];
    let first = seq![script];
    assert(stack.drop_last() =~= first);
    assert(stack.last() == control_block);
    assert(first.drop_last() =~= Seq::<Seq<u8>>::empty());
    assert(first.last() == script);
    assert(encode_stack_items(first.drop_last()).len() == 0);
    assert(compact_size(34).len() == 1);
    assert(compact_size(33).len() == 1);
    assert(encode_stack_items(first).len() == 35);
}

/// The first items of a stack take no more bytes than the whole stack.
pub proof fn lemma_stack_items_grow(stack: Seq<Seq<u8>>, count: int)
    requires
        0 <= count <= stack.len(),
    ensures
        encode_stack_items(stack.take(count)).len() <= encode_stack_items(stack).len(),
    decreases stack.len() - count,
{
    if count < stack.len() {
        lemma_stack_items_grow(stack, count + 1);
        assert(stack.take(count + 1).drop_last() == stack.take(count));
    } else {
        assert(stack.take(count) == stack);
    }
}

} // verus!
