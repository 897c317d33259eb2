//! The fee-aware partitioner: how much of an input value each leaf gets once
//! the fee of the spending transaction and the reserved outputs are paid.

use crate::bytes::copy_bytes;
use crate::encoding::lemma_encode_outputs_len;
use crate::error::CovenantError;
use crate::hasher::{commit, commit_digest, DEFAULT_SEQUENCE};
use crate::output::{
    checked_total, copy_outputs, lemma_output_views_push, lemma_total_value_concat, output_views,
    total_value, OutputSpec, OutputSpecView,
};
use crate::script::leaf_script;
use crate::spend::{
    committed_spend, lemma_commitment_witness_fits, serialized_transaction, stack_fits,
    stack_views, OutPoint, SpendTx, SpendTxView,
};
use crate::taproot::commit_single_leaf;
use vstd::bytes::lemma_auto_spec_u32_to_from_le_bytes;
use vstd::prelude::*;

verus! {

/// What the spending transaction looks like apart from its values: where the
/// leaves pay to, the internal key of the commitment, and the least fee to pay
/// whatever the size.
#[derive(Debug, PartialEq, Eq)]
pub struct SpendShape {
    pub leaf_destination: Vec<u8>,
    pub internal_key: [u8; 32],
    pub fee_floor: u64,
}

/// What a fee is computed from. It is derived anew for each construction.
#[derive(Debug, PartialEq, Eq)]
pub struct FeeBudget {
    pub fee_rate: u64,
    pub reserved_fixed_outputs: Vec<OutputSpec>,
    pub estimated_vsize: u64,
}

/// `count` outputs of `value` each to `destination`, then the reserved outputs.
pub open spec fn fanned_out(
    count: nat,
    value: u64,
    destination: Seq<u8>,
    reserved: Seq<OutputSpecView>,
) -> Seq<OutputSpecView> {
    Seq::new(count, |i: int| OutputSpecView { value, destination }) + reserved
}

/// The fee for a size at a rate, and at least the floor.
pub open spec fn fee_due(estimated_vsize: nat, fee_rate: nat, fee_floor: nat) -> nat {
    if estimated_vsize * fee_rate >= fee_floor {
        estimated_vsize * fee_rate
    } else {
        fee_floor
    }
}

/// Whether the input value pays the fee and the reserved outputs and leaves at
/// least one unit for every leaf.
pub open spec fn affordable(
    input_value: nat,
    leaf_count: nat,
    fee: nat,
    reserved_total: nat,
) -> bool {
    &&& fee + reserved_total <= input_value
    &&& input_value - fee - reserved_total >= leaf_count
}

/// What every leaf gets: the equal share of what is left, rounded down. The
/// remainder of the division goes to no output, and so to the fee.
pub open spec fn leaf_share(
    input_value: nat,
    leaf_count: nat,
    fee: nat,
    reserved_total: nat,
) -> nat {
    ((input_value - fee - reserved_total) / leaf_count as int) as nat
}

/// The outputs of a partition and the fee that is paid for: the fee due for the
/// size, then equal shares for the leaves, then the reserved outputs as they
/// are. `None` where the input value does not suffice.
pub open spec fn partition_outcome(
    input_value: u64,
    leaf_count: nat,
    leaf_destination: Seq<u8>,
    fee_floor: u64,
    fee_rate: u64,
    reserved: Seq<OutputSpecView>,
    estimated_vsize: u64,
) -> Option<(Seq<OutputSpecView>, u64)> {
    let fee = fee_due(estimated_vsize as nat, fee_rate as nat, fee_floor as nat);
    let reserved_total = total_value(reserved);
    if affordable(input_value as nat, leaf_count, fee, reserved_total) {
        let share = leaf_share(input_value as nat, leaf_count, fee, reserved_total);
        Some((fanned_out(leaf_count, share as u64, leaf_destination, reserved), fee as u64))
    } else {
        None
    }
}

/// The transaction that stands in for the spend while its size is estimated:
/// placeholders of value zero for the leaves, the reserved outputs, a null
/// input, and the witness of the commitment to these outputs. `None` where the
/// tweak has no result.
pub open spec fn dummy_spend_view(
    leaf_count: nat,
    leaf_destination: Seq<u8>,
    reserved: Seq<OutputSpecView>,
    internal_key: Seq<u8>,
) -> Option<SpendTxView> {
    committed_spend(
        Seq::new(32, |i: int| 0u8),
        u32::MAX,
        fanned_out(leaf_count, 0, leaf_destination, reserved),
        internal_key,
    )
}

/// Splits `input_value` among `leaf_count` leaves that pay to the shape's
/// destination, after the fee and the reserved outputs. The fee is the fee
/// rate times the estimated size of the spending transaction, and at least the
/// shape's floor; the size is that of a dummy spend with the same outputs at
/// value zero and a witness of the final size.
///
/// Fails with `TreeFinalize` where the dummy's commitment cannot be made, and
/// with `InsufficientFunds` as [`partition_with_budget`] does.
pub fn partition(
    input_value: u64,
    leaf_count: usize,
    fee_rate: u64,
    reserved_outputs: &[OutputSpec],
    shape: &SpendShape,
) -> (split: Result<(Vec<OutputSpec>, u64), CovenantError>)
    requires
        leaf_count >= 1,
    ensures
        ({
            let reserved = output_views(reserved_outputs@);
            match dummy_spend_view(
                leaf_count as nat,
                shape.leaf_destination@,
                reserved,
                shape.internal_key@,
            ) {
                None => split == Err::<(Vec<OutputSpec>, u64), CovenantError>(
                    CovenantError::TreeFinalize,
                ),
                Some(dummy) => {
                    let outcome = partition_outcome(
                        input_value,
                        leaf_count as nat,
                        shape.leaf_destination@,
                        shape.fee_floor,
                        fee_rate,
                        reserved,
                        serialized_transaction(dummy).len() as u64,
                    );
                    match split {
                        Ok((outputs, fee)) => {
                            &&& outcome == Some((output_views(outputs@), fee))
                            &&& outputs@.len() == leaf_count + reserved.len()
                            &&& total_value(output_views(outputs@)) + fee <= input_value
                            &&& input_value - total_value(output_views(outputs@)) - fee
                                < leaf_count
                        },
                        Err(error) => error == CovenantError::InsufficientFunds && outcome is None,
                    }
                },
            }
        }),
{
    let dummy = match dummy_spend(leaf_count, reserved_outputs, shape) {
        Ok(dummy) => dummy,
        Err(error) => {
            return Err(error);
        },
    };
    let budget = FeeBudget::for_spend(&dummy, fee_rate, reserved_outputs, None);
    partition_with_budget(
        input_value,
        leaf_count,
        shape.leaf_destination.as_slice(),
        shape.fee_floor,
        &budget,
    )
}

/// Splits `input_value` by a budget: the fee, then the reserved outputs, then
/// equal shares for `leaf_count` leaves, rounded down. Up to `leaf_count - 1`
/// units fall to no output and are paid as fee on top; this loss to rounding is
/// intended. The result is the outputs, leaves first and reserved outputs last,
/// and the fee budgeted.
///
/// Fails with `InsufficientFunds` where the input value is less than the fee
/// and the reserved outputs together, or what is left is less than one unit for
/// every leaf.
pub fn partition_with_budget(
    input_value: u64,
    leaf_count: usize,
    leaf_destination: &[u8],
    fee_floor: u64,
    budget: &FeeBudget,
) -> (split: Result<(Vec<OutputSpec>, u64), CovenantError>)
    requires
        leaf_count >= 1,
    ensures
        ({
            let reserved = output_views(budget.reserved_fixed_outputs@);
            let outcome = partition_outcome(
                input_value,
                leaf_count as nat,
                leaf_destination@,
                fee_floor,
                budget.fee_rate,
                reserved,
                budget.estimated_vsize,
            );
            match split {
                Ok((outputs, fee)) => {
                    &&& outcome == Some((output_views(outputs@), fee))
                    &&& outputs@.len() == leaf_count + reserved.len()
                    &&& total_value(output_views(outputs@)) + fee <= input_value
                    &&& input_value - total_value(output_views(outputs@)) - fee < leaf_count
                },
                Err(error) => error == CovenantError::InsufficientFunds && outcome is None,
            }
        }),
{
    let ghost reserved = output_views(budget.reserved_fixed_outputs@);
    let fee: u64 = match budget.required_fee(fee_floor) {
        Some(fee) => fee,
        None => {
            return Err(CovenantError::InsufficientFunds);
        },
    };
    let reserved_total: u64 = match checked_total(budget.reserved_fixed_outputs.as_slice()) {
        Some(total) => total,
        None => {
            return Err(CovenantError::InsufficientFunds);
        },
    };
    let share: u64 = match equal_share(input_value, leaf_count, fee, reserved_total) {
        Ok(share) => share,
        Err(error) => {
            return Err(error);
        },
    };
    let outputs = fan_out(
        leaf_count,
        share,
        leaf_destination,
        budget.reserved_fixed_outputs.as_slice(),
    );
    proof {
        lemma_fanned_out_total(leaf_count as nat, share, leaf_destination@, reserved);
        assert(output_views(outputs@).len() == leaf_count + reserved.len());
        assert(leaf_count as nat * share == share * leaf_count) by (nonlinear_arith);
    }
    Ok((outputs, fee))
}

/// What every leaf gets of `input_value` after `fee` and `reserved_total`: the
/// equal share, rounded down. Fails with `InsufficientFunds` where the input
/// value is less than the fee and the reserved total together, or what is left
/// is less than one unit for every leaf.
pub fn equal_share(input_value: u64, leaf_count: usize, fee: u64, reserved_total: u64) -> (share:
    Result<u64, CovenantError>)
    requires
        leaf_count >= 1,
    ensures
        match share {
            Ok(value) => {
                &&& affordable(
                    input_value as nat,
                    leaf_count as nat,
                    fee as nat,
                    reserved_total as nat,
                )
                &&& value == leaf_share(
                    input_value as nat,
                    leaf_count as nat,
                    fee as nat,
                    reserved_total as nat,
                )
                &&& value >= 1
                &&& value * leaf_count + fee + reserved_total <= input_value
                &&& input_value - (value * leaf_count + fee + reserved_total) < leaf_count
            },
            Err(error) => {
                &&& error == CovenantError::InsufficientFunds
                &&& !affordable(
                    input_value as nat,
                    leaf_count as nat,
                    fee as nat,
                    reserved_total as nat,
                )
            },
        },
{
    if fee > input_value || reserved_total > input_value - fee {
        return Err(CovenantError::InsufficientFunds);
    }
    let distributable: u64 = input_value - fee - reserved_total;
    if distributable < leaf_count as u64 {
        return Err(CovenantError::InsufficientFunds);
    }
    proof {
        lemma_share_bounds(distributable as nat, leaf_count as nat);
        assert((distributable / (leaf_count as u64)) * leaf_count == leaf_count * (distributable
            as nat / leaf_count as nat)) by (nonlinear_arith);
    }
    Ok(distributable / (leaf_count as u64))
}

/// `leaf_count` outputs of `leaf_value` each to `leaf_destination`, then copies
/// of the reserved outputs, in their order.
pub fn fan_out(
    leaf_count: usize,
    leaf_value: u64,
    leaf_destination: &[u8],
    reserved: &[OutputSpec],
) -> (outputs: Vec<OutputSpec>)
    ensures
        output_views(outputs@) == fanned_out(
            leaf_count as nat,
            leaf_value,
            leaf_destination@,
            output_views(reserved@),
        ),
{
    let ghost leaf = OutputSpecView { value: leaf_value, destination: leaf_destination@ };
    let mut outputs: Vec<OutputSpec> = Vec::new();
    let mut i: usize = 0;
    while i < leaf_count
        invariant
            i <= leaf_count,
            leaf == (OutputSpecView { value: leaf_value, destination: leaf_destination@ }),
            output_views(outputs@) == Seq::new(i as nat, |k: int| leaf),
        decreases leaf_count - i,
    {
        let output = OutputSpec { value: leaf_value, destination: copy_bytes(leaf_destination) };
        proof {
            lemma_output_views_push(outputs@, output);
            assert(Seq::new(i as nat, |k: int| leaf).push(leaf) =~= Seq::new(
                (i + 1) as nat,
                |k: int| leaf,
            ));
        }
        outputs.push(output);
        i += 1;
    }
    let ghost leaves = output_views(outputs@);
    let mut j: usize = 0;
    while j < reserved.len()
        invariant
            j <= reserved.len(),
            output_views(outputs@) == leaves + output_views(reserved@.take(j as int)),
        decreases reserved.len() - j,
    {
        let output = reserved[j].clone();
        proof {
            lemma_output_views_push(outputs@, output);
            lemma_output_views_push(reserved@.take(j as int), reserved@[j as int]);
            assert(reserved@.take(j + 1) == reserved@.take(j as int).push(reserved@[j as int]));
            assert((leaves + output_views(reserved@.take(j as int))).push(output@) =~= leaves
                + output_views(reserved@.take(j as int)).push(output@));
        }
        outputs.push(output);
        j += 1;
    }
    proof {
        assert(reserved@.take(reserved.len() as int) == reserved@);
    }
    outputs
}

/// One output for each of `destinations`, each of the equal share of
/// `total_value`, rounded down.
pub fn equal_outputs(total_value: u64, destinations: &[Vec<u8>]) -> (outputs: Vec<OutputSpec>)
    ensures
        outputs@.len() == destinations@.len(),
        forall|i: int|
            0 <= i < outputs@.len() ==> {
                &&& (#[trigger] outputs@[i]).value == total_value / (destinations@.len() as u64)
                &&& outputs@[i].destination@ == destinations@[i]@
            },
{
    let mut outputs: Vec<OutputSpec> = Vec::new();
    let count: usize = destinations.len();
    if count == 0 {
        return outputs;
    }
    let share: u64 = total_value / (count as u64);
    let mut i: usize = 0;
    while i < count
        invariant
            i <= count,
            count == destinations@.len(),
            outputs@.len() == i,
            forall|k: int|
                0 <= k < i ==> {
                    &&& (#[trigger] outputs@[k]).value == share
                    &&& outputs@[k].destination@ == destinations@[k]@
                },
        decreases count - i,
    {
        let destination = copy_bytes(destinations[i].as_slice());
        outputs.push(OutputSpec { value: share, destination });
        i += 1;
    }
    outputs
}

/// Builds the transaction that stands in for the spend while its size is
/// estimated: placeholders of value zero for the leaves, the reserved outputs,
/// a null input, and the witness of the commitment to these outputs, which has
/// the size of the final one. Fails with `TreeFinalize` where the taproot tweak
/// has no result.
pub fn dummy_spend(
    leaf_count: usize,
    reserved: &[OutputSpec],
    shape: &SpendShape,
) -> (built: Result<SpendTx, CovenantError>)
    requires
        leaf_count >= 1,
    ensures
        match built {
            Ok(tx) => stack_fits(tx@.witness) && dummy_spend_view(
                leaf_count as nat,
                shape.leaf_destination@,
                output_views(reserved@),
                shape.internal_key@,
            ) == Some(tx@),
            Err(error) => {
                &&& error == CovenantError::TreeFinalize
                &&& dummy_spend_view(
                    leaf_count as nat,
                    shape.leaf_destination@,
                    output_views(reserved@),
                    shape.internal_key@,
                ) is None
            },
        },
{
    let outputs = fan_out(leaf_count, 0, shape.leaf_destination.as_slice(), reserved);
    let digest = commit(outputs.as_slice(), None);
    let tap = match commit_single_leaf(shape.internal_key, leaf_script(&digest)) {
        Ok(tap) => tap,
        Err(error) => {
            return Err(error);
        },
    };
    let witness = tap.witness_stack();
    proof {
        assert(stack_views(witness@) =~= seq![tap.leaf_script.bytes@, tap.control_block@]);
        lemma_commitment_witness_fits(tap.leaf_script.bytes@, tap.control_block@);
    }
    Ok(SpendTx::template(OutPoint::null(), DEFAULT_SEQUENCE, outputs, witness))
}

/// The size to charge for: the size that the node measured for the dummy
/// transaction where it measured one, else the length of the dummy's
/// serialization, witness included. The length is never below the virtual
/// size, which counts the marker, the flag and the witness at a quarter: for
/// the 72 such bytes of a commitment's spend, the length is 54 above it, and
/// the fee computed from it is that much on the safe side.
pub fn estimate_vsize(dummy: &SpendTx, measured: Option<u64>) -> (vsize: u64)
    requires
        stack_fits(dummy@.witness),
    ensures
        vsize == match measured {
            Some(size) => size,
            None => serialized_transaction(dummy@).len() as u64,
        },
{
    match measured {
        Some(size) => size,
        None => {
            let raw = dummy.serialize();
            raw.len() as u64
        },
    }
}

impl FeeBudget {
    /// The budget for a spend that `dummy` stands in for: the size is the one
    /// that the node measured for the dummy where it measured one, else the
    /// length of the dummy's serialization.
    pub fn for_spend(
        dummy: &SpendTx,
        fee_rate: u64,
        reserved_outputs: &[OutputSpec],
        measured: Option<u64>,
    ) -> (budget: FeeBudget)
        requires
            stack_fits(dummy@.witness),
        ensures
            budget.fee_rate == fee_rate,
            output_views(budget.reserved_fixed_outputs@) == output_views(reserved_outputs@),
            budget.estimated_vsize == match measured {
                Some(size) => size,
                None => serialized_transaction(dummy@).len() as u64,
            },
    {
        FeeBudget {
            fee_rate,
            reserved_fixed_outputs: copy_outputs(reserved_outputs),
            estimated_vsize: estimate_vsize(dummy, measured),
        }
    }

    /// The fee that the budget asks for, given the least fee to pay.
    pub open spec fn fee(&self, fee_floor: u64) -> nat {
        fee_due(self.estimated_vsize as nat, self.fee_rate as nat, fee_floor as nat)
    }

    /// The fee that the budget asks for, given the least fee to pay; `None`
    /// where it does not fit in 64 bits.
    pub fn required_fee(&self, fee_floor: u64) -> (fee: Option<u64>)
        ensures
            match fee {
                Some(due) => due == self.fee(fee_floor),
                None => self.fee(fee_floor) > u64::MAX,
            },
    {
        proof {
            assert(self.estimated_vsize * self.fee_rate <= u64::MAX * u64::MAX) by (nonlinear_arith)
                requires
                    0 <= self.estimated_vsize <= u64::MAX,
                    0 <= self.fee_rate <= u64::MAX,
            ;
        }
        let by_size: u128 = self.estimated_vsize as u128 * self.fee_rate as u128;
        let due: u128 = if by_size >= fee_floor as u128 {
            by_size
        } else {
            fee_floor as u128
        };
        if due > u64::MAX as u128 {
            None
        } else {
            Some(due as u64)
        }
    }
}

/// The estimate is exact: the dummy has the size of the spend that it stands
/// for. Whatever value the leaves get and whichever output funds the
/// commitment, the spend serializes to as many bytes as the dummy, as long as
/// digests are 32 bytes long, as those of SHA-256 are.
pub proof fn lemma_dummy_has_final_size(
    leaf_count: nat,
    leaf_value: u64,
    leaf_destination: Seq<u8>,
    reserved: Seq<OutputSpecView>,
    internal_key: Seq<u8>,
    txid: Seq<u8>,
    vout: u32,
)
    requires
        txid.len() == 32,
        internal_key.len() == 32,
        commit_digest(fanned_out(leaf_count, 0, leaf_destination, reserved), None).len() == 32,
        commit_digest(fanned_out(leaf_count, leaf_value, leaf_destination, reserved), None).len()
            == 32,
        dummy_spend_view(leaf_count, leaf_destination, reserved, internal_key) is Some,
        committed_spend(
            txid,
            vout,
            fanned_out(leaf_count, leaf_value, leaf_destination, reserved),
            internal_key,
        ) is Some,
    ensures
        serialized_transaction(
            committed_spend(
                txid,
                vout,
                fanned_out(leaf_count, leaf_value, leaf_destination, reserved),
                internal_key,
            )->0,
        ).len() == serialized_transaction(
            dummy_spend_view(leaf_count, leaf_destination, reserved, internal_key)->0,
        ).len(),
{
    let placeholders = fanned_out(leaf_count, 0, leaf_destination, reserved);
    let outputs = fanned_out(leaf_count, leaf_value, leaf_destination, reserved);
    let dummy = dummy_spend_view(leaf_count, leaf_destination, reserved, internal_key)->0;
    let spend = committed_spend(txid, vout, outputs, internal_key)->0;
    lemma_encode_outputs_len(outputs, placeholders);
    lemma_commitment_witness_fits(dummy.witness[0], dummy.witness[1]);
    lemma_commitment_witness_fits(spend.witness[0], spend.witness[1]);
    assert(dummy.witness =~= seq![dummy.witness[0], dummy.witness[1]]);
    assert(spend.witness =~= seq![spend.witness[0], spend.witness[1]]);
    lemma_auto_spec_u32_to_from_le_bytes();
}

/// The sum over equal leaves and reserved outputs.
pub proof fn lemma_fanned_out_total(
    count: nat,
    value: u64,
    destination: Seq<u8>,
    reserved: Seq<OutputSpecView>,
)
    ensures
        total_value(fanned_out(count, value, destination, reserved)) == count * value
            + total_value(reserved),
{
    let leaf = OutputSpecView { value, destination };
    lemma_equal_leaves_total(count, leaf);
    lemma_total_value_concat(Seq::new(count, |i: int| leaf), reserved);
}

/// The sum over `count` equal outputs.
pub proof fn lemma_equal_leaves_total(count: nat, leaf: OutputSpecView)
    ensures
        total_value(Seq::new(count, |i: int| leaf)) == count * leaf.value,
    decreases count,
{
    let leaves = Seq::new(count, |i: int| leaf);
    if count > 0 {
        let fewer = Seq::new((count - 1) as nat, |i: int| leaf);
        lemma_equal_leaves_total((count - 1) as nat, leaf);
        assert(leaves.drop_last() =~= fewer);
        assert(leaves.last() == leaf);
        assert(total_value(leaves) == total_value(fewer) + leaf.value);
        assert(count * leaf.value == (count - 1) * leaf.value + leaf.value) by (nonlinear_arith);
    } else {
        assert(leaves.len() == 0);
        assert(count * leaf.value == 0) by (nonlinear_arith)
            requires
                count == 0,
        ;
    }
}

/// Equal shares, rounded down, leave less than one unit for each leaf.
pub proof fn lemma_share_bounds(distributable: nat, leaf_count: nat)
    requires
        leaf_count >= 1,
    ensures
        leaf_count * (distributable / leaf_count) <= distributable,
        distributable - leaf_count * (distributable / leaf_count) < leaf_count,
        distributable >= leaf_count ==> distributable / leaf_count >= 1,
{
    let share = distributable / leaf_count;
    assert(distributable == leaf_count * share + distributable % leaf_count) by (nonlinear_arith)
        requires
            leaf_count >= 1,
            share == distributable / leaf_count,
    ;
    assert(0 <= distributable % leaf_count < leaf_count) by (nonlinear_arith)
        requires
            leaf_count >= 1,
    ;
    if distributable >= leaf_count {
        assert(share >= 1) by (nonlinear_arith)
            requires
                distributable == leaf_count * share + distributable % leaf_count,
                distributable % leaf_count < leaf_count,
                distributable >= leaf_count,
                leaf_count >= 1,
                share >= 0,
        ;
    }
}

} // verus!
