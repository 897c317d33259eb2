//! Whole constructions: from an input value to the commitment to fund, and the
//! fee of spending the root of a tree.

use crate::error::CovenantError;
use crate::output::{output_views, total_value, OutputSpec, OutputSpecView};
use crate::partition::{
    estimate_vsize, fan_out, fanned_out, fee_due, lemma_fanned_out_total, partition_outcome,
    partition_with_budget, FeeBudget, SpendShape,
};
use crate::spend::{
    committed_spend, lemma_spend_round_trip, serialized_transaction, spend_transaction, OutPoint,
};
use crate::taproot::{derive_address, p2tr_address, Network};
use crate::tree::{
    build_tree, fills_tree, group_output, subtree_outputs, tree_depth, tree_output, CovenantNode,
};
use vstd::prelude::*;

verus! {

/// A commitment ready to be funded: the node that commits to the outputs, the
/// address that pays to it, and the fee budgeted for spending it.
#[derive(Debug, PartialEq, Eq)]
pub struct Contract {
    pub node: CovenantNode,
    pub address: String,
    pub fee: u64,
}

/// Builds the commitment that fans `input_value` out: the value is split by
/// the budget as [`partition_with_budget`] does, the outputs are committed in
/// one level under the shape's internal key, and the address of the commitment
/// on `network` is derived.
///
/// Fails with `InsufficientFunds` where the input value does not suffice, and
/// with `TreeFinalize` where the taproot tweak has no result.
pub fn build_contract(
    input_value: u64,
    leaf_count: usize,
    budget: &FeeBudget,
    shape: &SpendShape,
    network: Network,
) -> (made: Result<Contract, CovenantError>)
    requires
        leaf_count >= 1,
    ensures
        match partition_outcome(
            input_value,
            leaf_count as nat,
            shape.leaf_destination@,
            shape.fee_floor,
            budget.fee_rate,
            output_views(budget.reserved_fixed_outputs@),
            budget.estimated_vsize,
        ) {
            None => made matches Err(error) && error == CovenantError::InsufficientFunds,
            Some((outputs, fee)) => match made {
                Ok(contract) => {
                    &&& contract.fee == fee
                    &&& contract.node.balanced(outputs.len(), 1)
                    &&& contract.node.wf()
                    &&& contract.node.keyed(shape.internal_key@)
                    &&& contract.node.leaves() == outputs
                    &&& group_output(outputs, shape.internal_key@) == Some(contract.node.output())
                    &&& contract.address@ == p2tr_address(
                        contract.node->tap.output_key@,
                        network,
                    )
                },
                Err(error) => {
                    &&& error == CovenantError::TreeFinalize
                    &&& group_output(outputs, shape.internal_key@) is None
                },
            },
        },
{
    let (outputs, fee) = match partition_with_budget(
        input_value,
        leaf_count,
        shape.leaf_destination.as_slice(),
        shape.fee_floor,
        budget,
    ) {
        Ok(split) => split,
        Err(error) => {
            return Err(error);
        },
    };
    let node = match CovenantNode::flat(outputs.as_slice(), &shape.internal_key) {
        Ok(node) => node,
        Err(error) => {
            return Err(error);
        },
    };
    let address = match &node {
        CovenantNode::Internal { tap, .. } => derive_address(&tap.output_key, network),
        CovenantNode::Leaf(_) => unreached(),
    };
    Ok(Contract { node, address, fee })
}

/// The fee of spending the root of the tree over `leaf_count` leaves: the
/// tree is built over placeholders of value zero that pay to the shape's
/// destination, the spend of its root from a null input is sized as
/// [`estimate_vsize`] does, and the fee is the fee rate times that size, and at
/// least the shape's floor.
///
/// Fails as [`build_tree`] does; with `CommitmentMismatch` for a tree of one
/// leaf, which has no commitment to spend; and with `InsufficientFunds` where
/// the fee does not fit in 64 bits.
pub fn tree_fee(
    leaf_count: usize,
    branching_factor: usize,
    shape: &SpendShape,
    fee_rate: u64,
    measured: Option<u64>,
) -> (fee: Result<u64, CovenantError>)
    ensures
        ({
            let leaves = fanned_out(
                leaf_count as nat,
                0,
                shape.leaf_destination@,
                Seq::<OutputSpecView>::empty(),
            );
            let factor = branching_factor as nat;
            let depth = tree_depth(leaf_count as nat, factor);
            let key = shape.internal_key@;
            let outputs = subtree_outputs(leaves, factor, (depth - 1) as nat, key, factor)->0;
            let spend = committed_spend(Seq::new(32, |i: int| 0u8), u32::MAX, outputs, key)->0;
            let size = match measured {
                Some(size) => size,
                None => serialized_transaction(spend).len() as u64,
            };
            let due = fee_due(size as nat, fee_rate as nat, shape.fee_floor as nat);
            if !fills_tree(leaf_count as nat, factor) {
                fee matches Err(error) && error == CovenantError::UnbalancedTree
            } else if tree_output(leaves, factor, depth, key) is None {
                fee matches Err(error) && error == CovenantError::TreeFinalize
            } else if depth == 0 {
                fee matches Err(error) && error == CovenantError::CommitmentMismatch
            } else if due > u64::MAX {
                fee matches Err(error) && error == CovenantError::InsufficientFunds
            } else {
                fee matches Ok(paid) && paid == due
            }
        }),
{
    let none: Vec<OutputSpec> = Vec::new();
    let leaves = fan_out(leaf_count, 0, shape.leaf_destination.as_slice(), none.as_slice());
    proof {
        assert(output_views(none@) =~= Seq::<OutputSpecView>::empty());
        lemma_fanned_out_total(
            leaf_count as nat,
            0,
            shape.leaf_destination@,
            Seq::<OutputSpecView>::empty(),
        );
        assert(total_value(Seq::<OutputSpecView>::empty()) == 0);
        assert(leaf_count as nat * 0u64 == 0) by (nonlinear_arith);
    }
    let root = match build_tree(leaves.as_slice(), branching_factor, &shape.internal_key) {
        Ok(root) => root,
        Err(error) => {
            return Err(error);
        },
    };
    let funding = OutPoint::null();
    proof {
        if root is Internal {
            lemma_spend_round_trip(funding, root);
        }
    }
    let spend = match spend_transaction(funding, &root) {
        Ok(spend) => spend,
        Err(error) => {
            return Err(error);
        },
    };
    let budget = FeeBudget {
        fee_rate,
        reserved_fixed_outputs: none,
        estimated_vsize: estimate_vsize(&spend, measured),
    };
    match budget.required_fee(shape.fee_floor) {
        Some(due) => Ok(due),
        None => Err(CovenantError::InsufficientFunds),
    }
}

} // verus!
