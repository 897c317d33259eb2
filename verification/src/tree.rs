//! Covenant trees: commitments over commitments, so that one funding output
//! fans out, level by level, into the outputs at the leaves.

use crate::error::CovenantError;
use crate::hasher::{commit_digest, TemplateCommitment};
use crate::output::{
    checked_total, lemma_output_views_push, lemma_total_value_concat, lemma_total_value_subrange,
    output_views, total_value, OutputSpec, OutputSpecView,
};
use crate::script::{leaf_script, p2tr_script, p2tr_script_pubkey, restriction_script};
use crate::taproot::{commit_single_leaf, tapscript_tweak, TapCommitment};
use vstd::prelude::*;

verus! {

/// A node of a covenant tree: an output as it is, or a commitment to the
/// outputs of its children.
#[derive(Debug, PartialEq, Eq)]
pub enum CovenantNode {
    Leaf(OutputSpec),
    Internal {
        children: Vec<CovenantNode>,
        aggregate_value: u64,
        commitment: TemplateCommitment,
        tap: TapCommitment,
    },
}

/// The outputs that stand for the nodes of a list, in order.
pub open spec fn outputs_of(nodes: Seq<CovenantNode>) -> Seq<OutputSpecView> {
    nodes.map_values(|node: CovenantNode| node.output())
}

/// The leaves below the nodes of a list, from left to right.
pub open spec fn leaves_of(nodes: Seq<CovenantNode>) -> Seq<OutputSpecView>
    decreases nodes, 0int,
{
    if nodes.len() == 0 {
        Seq::empty()
    } else {
        leaves_of(nodes.drop_last()) + nodes.last().leaves()
    }
}

/// The output that commits to a group of outputs under an internal key: its
/// value is the sum of theirs, and it pays to the taproot output key of the
/// group's restriction script. `None` where the tweak has no result.
pub open spec fn group_output(group: Seq<OutputSpecView>, internal_key: Seq<u8>) -> Option<
    OutputSpecView,
> {
    match tapscript_tweak(internal_key, restriction_script(commit_digest(group, None))) {
        Some((output_key, _)) => Some(
            OutputSpecView {
                value: total_value(group) as u64,
                destination: p2tr_script(output_key),
            },
        ),
        None => None,
    }
}

/// `base` to the power `exponent`.
pub open spec fn power(base: nat, exponent: nat) -> nat
    decreases exponent,
{
    if exponent == 0 {
        1
    } else {
        base * power(base, (exponent - 1) as nat)
    }
}

/// Whether `count` leaves fill a tree in which every node above the leaves has
/// `branching_factor` children: the branching factor is at least 2, and the
/// count is one of its powers (1 among them: a tree of one leaf).
pub open spec fn fills_tree(count: nat, branching_factor: nat) -> bool {
    branching_factor >= 2 && exists|depth: nat| count == power(branching_factor, depth)
}

/// The depth of the tree that `count` leaves fill, where they fill one.
pub open spec fn tree_depth(count: nat, branching_factor: nat) -> nat {
    choose|depth: nat| count == power(branching_factor, depth)
}

/// The output that stands for the tree of the given depth over `leaves`: the
/// leaf itself at depth 0, else the output that commits to the outputs of the
/// `branching_factor` subtrees. `None` where a tweak in the tree has no result.
pub open spec fn tree_output(
    leaves: Seq<OutputSpecView>,
    branching_factor: nat,
    depth: nat,
    internal_key: Seq<u8>,
) -> Option<OutputSpecView>
    decreases depth, 0nat,
{
    if depth == 0 {
        Some(leaves[0])
    } else {
        match subtree_outputs(
            leaves,
            branching_factor,
            (depth - 1) as nat,
            internal_key,
            branching_factor,
        ) {
            Some(outputs) => group_output(outputs, internal_key),
            None => None,
        }
    }
}

/// The outputs of the first `count` subtrees of the given depth over `leaves`,
/// which are cut into `branching_factor` equal parts, one for each subtree.
pub open spec fn subtree_outputs(
    leaves: Seq<OutputSpecView>,
    branching_factor: nat,
    depth: nat,
    internal_key: Seq<u8>,
    count: nat,
) -> Option<Seq<OutputSpecView>>
    decreases depth, count,
{
    if count == 0 {
        Some(Seq::empty())
    } else {
        let size = leaves.len() / branching_factor;
        let part = leaves.subrange((count - 1) * size, (count * size) as int);
        match (
            subtree_outputs(leaves, branching_factor, depth, internal_key, (count - 1) as nat),
            tree_output(part, branching_factor, depth, internal_key),
        ) {
            (Some(outputs), Some(output)) => Some(outputs.push(output)),
            _ => None,
        }
    }
}

impl CovenantNode {
    /// The value that the node carries.
    pub open spec fn aggregate(&self) -> u64 {
        match self {
            CovenantNode::Leaf(output) => output.value,
            CovenantNode::Internal { aggregate_value, .. } => *aggregate_value,
        }
    }

    /// The output that stands for the node one level up: a leaf's own output,
    /// or the node's value paid to its taproot output key.
    pub open spec fn output(&self) -> OutputSpecView {
        match self {
            CovenantNode::Leaf(output) => output@,
            CovenantNode::Internal { aggregate_value, tap, .. } => OutputSpecView {
                value: *aggregate_value,
                destination: p2tr_script(tap.output_key@),
            },
        }
    }

    /// The leaves below the node, from left to right.
    pub open spec fn leaves(&self) -> Seq<OutputSpecView>
        decreases self, 1int,
    {
        match self {
            CovenantNode::Leaf(output) => seq![output@],
            CovenantNode::Internal { children, .. } => leaves_of(children@),
        }
    }

    /// The node agrees with its immediate children: it has at least one, its
    /// value is the sum of theirs, it commits to their outputs in order, with no
    /// sequence override, and its taproot commitment is that of the digest's
    /// restriction script.
    pub open spec fn joined(&self) -> bool {
        match self {
            CovenantNode::Leaf(_) => true,
            CovenantNode::Internal { children, aggregate_value, commitment, tap } => {
                &&& children@.len() > 0
                &&& *aggregate_value == total_value(outputs_of(children@))
                &&& output_views(commitment.committed_outputs@) == outputs_of(children@)
                &&& commitment.sequence_override is None
                &&& commitment.wf()
                &&& tap.committed(tap.internal_key@, restriction_script(commitment.digest@))
            },
        }
    }

    /// Every node of the tree agrees with its children.
    pub open spec fn wf(&self) -> bool
        decreases self,
    {
        &&& self.joined()
        &&& match self {
            CovenantNode::Leaf(_) => true,
            CovenantNode::Internal { children, .. } => forall|i: int|
                0 <= i < children@.len() ==> (#[trigger] children@[i]).wf(),
        }
    }

    /// Every commitment in the tree is made under the given internal key.
    pub open spec fn keyed(&self, internal_key: Seq<u8>) -> bool
        decreases self,
    {
        match self {
            CovenantNode::Leaf(_) => true,
            CovenantNode::Internal { children, tap, .. } => {
                &&& tap.internal_key@ == internal_key
                &&& forall|i: int|
                    0 <= i < children@.len() ==> (#[trigger] children@[i]).keyed(internal_key)
            },
        }
    }

    /// Every node above the leaves has exactly `branching_factor` children, and
    /// every leaf is `depth` levels below this node.
    pub open spec fn balanced(&self, branching_factor: nat, depth: nat) -> bool
        decreases self,
    {
        match self {
            CovenantNode::Leaf(_) => depth == 0,
            CovenantNode::Internal { children, .. } => {
                &&& depth > 0
                &&& children@.len() == branching_factor
                &&& forall|i: int|
                    0 <= i < children@.len() ==> (#[trigger] children@[i]).balanced(
                        branching_factor,
                        (depth - 1) as nat,
                    )
            },
        }
    }
}

/// Builds the covenant tree over `leaf_outputs`: consecutive groups of
/// `branching_factor` outputs are committed into one output each, and so on
/// with the outputs of each level until one node is left, the root. Every
/// commitment is made under `internal_key`. A single leaf is a tree by itself.
///
/// Fails with `UnbalancedTree` unless the branching factor is at least 2 and
/// the number of leaves is one of its powers (so an empty list is refused), and
/// with `TreeFinalize` where a taproot tweak in the tree has no result.
pub fn build_tree(
    leaf_outputs: &[OutputSpec],
    branching_factor: usize,
    internal_key: &[u8; 32],
) -> (built: Result<CovenantNode, CovenantError>)
    requires
        total_value(output_views(leaf_outputs@)) <= u64::MAX,
    ensures
        ({
            let leaves = output_views(leaf_outputs@);
            let factor = branching_factor as nat;
            let depth = tree_depth(leaves.len(), factor);
            match built {
                Ok(root) => {
                    &&& fills_tree(leaves.len(), factor)
                    &&& root.wf()
                    &&& root.keyed(internal_key@)
                    &&& root.balanced(factor, depth)
                    &&& root.leaves() == leaves
                    &&& root.aggregate() == total_value(leaves)
                    &&& tree_output(leaves, factor, depth, internal_key@) == Some(root.output())
                    &&& depth > 0 ==> subtree_outputs(
                        leaves,
                        factor,
                        (depth - 1) as nat,
                        internal_key@,
                        factor,
                    ) == Some(outputs_of(root->children@))
                },
                Err(error) => if fills_tree(leaves.len(), factor) {
                    &&& error == CovenantError::TreeFinalize
                    &&& tree_output(leaves, factor, depth, internal_key@) is None
                } else {
                    error == CovenantError::UnbalancedTree
                },
            }
        }),
{
    let count: usize = leaf_outputs.len();
    let ghost factor = branching_factor as nat;
    if branching_factor < 2 {
        return Err(CovenantError::UnbalancedTree);
    }
    if count == 0 {
        proof {
            assert forall|depth: nat| 0 != power(factor, depth) by {
                lemma_power_positive(factor, depth);
            }
        }
        return Err(CovenantError::UnbalancedTree);
    }
    let mut size: usize = 1;
    let mut depth: usize = 0;
    while size < count
        invariant
            branching_factor >= 2,
            factor == branching_factor as nat,
            count == leaf_outputs@.len(),
            size == power(factor, depth as nat),
            1 <= size <= count,
            depth < size,
        decreases count - size,
    {
        if size > count / branching_factor {
            proof {
                assert(size * factor > count) by (nonlinear_arith)
                    requires
                        size > count / branching_factor,
                        factor == branching_factor,
                        factor >= 2,
                ;
                assert(power(factor, (depth + 1) as nat) == factor * power(factor, depth as nat));
                assert(size * factor == factor * size) by (nonlinear_arith);
                lemma_between_powers(count as nat, factor, depth as nat);
            }
            return Err(CovenantError::UnbalancedTree);
        }
        proof {
            assert(size * factor <= count) by (nonlinear_arith)
                requires
                    size <= count / branching_factor,
                    factor == branching_factor,
                    factor >= 2,
            ;
            assert(size * factor >= size + size) by (nonlinear_arith)
                requires
                    factor >= 2,
            ;
            assert(size * factor == factor * size) by (nonlinear_arith);
        }
        size = size * branching_factor;
        depth = depth + 1;
    }
    proof {
        lemma_tree_depth(factor, depth as nat);
        assert(output_views(leaf_outputs@).subrange(0, count as int) =~= output_views(
            leaf_outputs@,
        ));
    }
    let built = build_subtree(leaf_outputs, 0, count, branching_factor, depth, internal_key);
    proof {
        if built is Ok {
            lemma_value_conservation(built->Ok_0);
        }
    }
    built
}

/// Builds the tree of the given depth over `size` leaves from `start` on.
fn build_subtree(
    leaf_outputs: &[OutputSpec],
    start: usize,
    size: usize,
    branching_factor: usize,
    depth: usize,
    internal_key: &[u8; 32],
) -> (built: Result<CovenantNode, CovenantError>)
    requires
        branching_factor >= 2,
        size == power(branching_factor as nat, depth as nat),
        start + size <= leaf_outputs@.len() <= usize::MAX,
        total_value(output_views(leaf_outputs@).subrange(start as int, start + size))
            <= u64::MAX,
    ensures
        ({
            let part = output_views(leaf_outputs@).subrange(start as int, start + size);
            let output = tree_output(part, branching_factor as nat, depth as nat, internal_key@);
            match built {
                Ok(node) => {
                    &&& node.wf()
                    &&& node.keyed(internal_key@)
                    &&& node.balanced(branching_factor as nat, depth as nat)
                    &&& node.leaves() == part
                    &&& output == Some(node.output())
                    &&& depth > 0 ==> subtree_outputs(
                        part,
                        branching_factor as nat,
                        (depth - 1) as nat,
                        internal_key@,
                        branching_factor as nat,
                    ) == Some(outputs_of(node->children@))
                },
                Err(error) => error == CovenantError::TreeFinalize && output is None,
            }
        }),
    decreases depth,
{
    let ghost views = output_views(leaf_outputs@);
    let ghost part = views.subrange(start as int, start + size);
    let ghost factor = branching_factor as nat;
    if depth == 0 {
        proof {
            assert(part =~= seq![leaf_outputs@[start as int]@]);
        }
        return Ok(CovenantNode::Leaf(leaf_outputs[start].clone()));
    }
    let child_size: usize = size / branching_factor;
    let ghost below = (depth - 1) as nat;
    proof {
        let smaller = power(factor, below);
        assert((factor * smaller) / factor == smaller) by (nonlinear_arith)
            requires
                factor >= 2,
        ;
        assert(part.len() / factor == child_size);
    }
    let mut children: Vec<CovenantNode> = Vec::new();
    let mut i: usize = 0;
    while i < branching_factor
        invariant
            i <= branching_factor,
            branching_factor >= 2,
            factor == branching_factor as nat,
            below == (depth - 1) as nat,
            depth > 0,
            child_size == power(factor, below),
            size == factor * child_size,
            start + size <= leaf_outputs@.len() <= usize::MAX,
            views == output_views(leaf_outputs@),
            part == views.subrange(start as int, start + size),
            part.len() / factor == child_size,
            total_value(part) <= u64::MAX,
            children@.len() == i,
            forall|j: int|
                0 <= j < i ==> {
                    &&& (#[trigger] children@[j]).wf()
                    &&& children@[j].keyed(internal_key@)
                    &&& children@[j].balanced(factor, below)
                },
            leaves_of(children@) == part.subrange(0, i * child_size),
            subtree_outputs(part, factor, below, internal_key@, i as nat) == Some(
                outputs_of(children@),
            ),
        decreases branching_factor - i,
    {
        proof {
            assert((i + 1) * child_size <= factor * child_size) by (nonlinear_arith)
                requires
                    i + 1 <= factor,
            ;
            assert((i + 1) * child_size == i * child_size + child_size) by (nonlinear_arith);
            assert(0 <= i * child_size) by (nonlinear_arith);
            assert(i * child_size + child_size <= size);
        }
        let child_start: usize = start + i * child_size;
        let ghost chunk = part.subrange(i * child_size, (i + 1) * child_size);
        proof {
            assert(chunk =~= views.subrange(child_start as int, child_start + child_size));
            lemma_total_value_subrange(part, i * child_size, (i + 1) * child_size);
        }
        match build_subtree(
            leaf_outputs,
            child_start,
            child_size,
            branching_factor,
            depth - 1,
            internal_key,
        ) {
            Err(error) => {
                proof {
                    assert(subtree_outputs(part, factor, below, internal_key@, (i + 1) as nat)
                        is None);
                    lemma_subtree_outputs_none(
                        part,
                        factor,
                        below,
                        internal_key@,
                        (i + 1) as nat,
                        factor,
                    );
                }
                return Err(error);
            },
            Ok(child) => {
                proof {
                    lemma_leaves_of_push(children@, child);
                    assert(part.subrange(0, i * child_size) + chunk =~= part.subrange(
                        0,
                        (i + 1) * child_size,
                    ));
                    assert(outputs_of(children@.push(child)) =~= outputs_of(children@).push(
                        child.output(),
                    ));
                }
                children.push(child);
            },
        }
        i += 1;
    }
    proof {
        assert(part.subrange(0, part.len() as int) =~= part);
        lemma_values_conservation(children@);
    }
    CovenantNode::group(children, internal_key)
}

impl CovenantNode {
    /// Commits to `outputs` in one level: a node with a leaf for each output.
    /// Fails with `UnbalancedTree` where there is no output, and with
    /// `TreeFinalize` where the taproot tweak has no result.
    pub fn flat(outputs: &[OutputSpec], internal_key: &[u8; 32]) -> (made: Result<
        CovenantNode,
        CovenantError,
    >)
        requires
            total_value(output_views(outputs@)) <= u64::MAX,
        ensures
            match made {
                Ok(node) => {
                    &&& node.wf()
                    &&& node.keyed(internal_key@)
                    &&& node.balanced(outputs@.len(), 1)
                    &&& node.leaves() == output_views(outputs@)
                    &&& outputs_of(node->children@) == output_views(outputs@)
                    &&& group_output(output_views(outputs@), internal_key@) == Some(node.output())
                },
                Err(error) => if outputs@.len() == 0 {
                    error == CovenantError::UnbalancedTree
                } else {
                    &&& error == CovenantError::TreeFinalize
                    &&& group_output(output_views(outputs@), internal_key@) is None
                },
            },
    {
        let children = leaf_nodes(outputs);
        let ghost leaves = children@;
        let made = CovenantNode::group(children, internal_key);
        proof {
            assert forall|i: int| 0 <= i < leaves.len() implies (#[trigger] leaves[i]).wf()
                && leaves[i].keyed(internal_key@) && leaves[i].balanced(outputs@.len(), 0) by {
                assert(leaves[i] is Leaf);
            }
        }
        made
    }

    /// The value that the node carries.
    pub fn aggregate_value(&self) -> (value: u64)
        ensures
            value == self.aggregate(),
    {
        match self {
            CovenantNode::Leaf(output) => output.value,
            CovenantNode::Internal { aggregate_value, .. } => *aggregate_value,
        }
    }

    /// The output that stands for the node one level up.
    pub fn to_output(&self) -> (output: OutputSpec)
        ensures
            output@ == self.output(),
    {
        match self {
            CovenantNode::Leaf(output) => output.clone(),
            CovenantNode::Internal { aggregate_value, tap, .. } => OutputSpec {
                value: *aggregate_value,
                destination: p2tr_script_pubkey(&tap.output_key),
            },
        }
    }

    /// Commits to `children` under `internal_key`: the new node carries the sum
    /// of their values and commits to their outputs in order. Fails with
    /// `UnbalancedTree` where there is no child, and with `TreeFinalize` where
    /// the taproot tweak has no result.
    pub fn group(children: Vec<CovenantNode>, internal_key: &[u8; 32]) -> (made: Result<
        CovenantNode,
        CovenantError,
    >)
        requires
            total_value(outputs_of(children@)) <= u64::MAX,
        ensures
            match made {
                Ok(node) => {
                    &&& node matches CovenantNode::Internal { children: kept, tap, .. }
                    &&& kept@ == children@
                    &&& tap.internal_key@ == internal_key@
                    &&& node.joined()
                    &&& group_output(outputs_of(children@), internal_key@) == Some(node.output())
                },
                Err(error) => if children@.len() == 0 {
                    error == CovenantError::UnbalancedTree
                } else {
                    &&& error == CovenantError::TreeFinalize
                    &&& group_output(outputs_of(children@), internal_key@) is None
                },
            },
    {
        if children.len() == 0 {
            return Err(CovenantError::UnbalancedTree);
        }
        let outputs = child_outputs(children.as_slice());
        let aggregate_value: u64 = match checked_total(outputs.as_slice()) {
            Some(total) => total,
            None => unreached(),
        };
        let commitment = TemplateCommitment::new(outputs, None);
        match commit_single_leaf(*internal_key, leaf_script(&commitment.digest)) {
            Err(error) => Err(error),
            Ok(tap) => Ok(CovenantNode::Internal { children, aggregate_value, commitment, tap }),
        }
    }
}

/// A leaf for each of `outputs`, in order.
pub fn leaf_nodes(outputs: &[OutputSpec]) -> (nodes: Vec<CovenantNode>)
    ensures
        nodes@.len() == outputs@.len(),
        forall|i: int| 0 <= i < nodes@.len() ==> (#[trigger] nodes@[i]) is Leaf,
        outputs_of(nodes@) == output_views(outputs@),
        leaves_of(nodes@) == output_views(outputs@),
{
    let mut nodes: Vec<CovenantNode> = Vec::new();
    let mut i: usize = 0;
    while i < outputs.len()
        invariant
            i <= outputs.len(),
            nodes@.len() == i,
            forall|k: int| 0 <= k < nodes@.len() ==> (#[trigger] nodes@[k]) is Leaf,
            outputs_of(nodes@) == output_views(outputs@.take(i as int)),
            leaves_of(nodes@) == output_views(outputs@.take(i as int)),
        decreases outputs.len() - i,
    {
        let node = CovenantNode::Leaf(outputs[i].clone());
        proof {
            lemma_leaves_of_push(nodes@, node);
            lemma_output_views_push(outputs@.take(i as int), outputs@[i as int]);
            assert(outputs@.take(i + 1) == outputs@.take(i as int).push(outputs@[i as int]));
            assert(outputs_of(nodes@.push(node)) =~= outputs_of(nodes@).push(node.output()));
            assert(node.leaves() =~= seq![outputs@[i as int]@]);
            assert(output_views(outputs@.take(i as int)).push(outputs@[i as int]@)
                =~= output_views(outputs@.take(i as int)) + seq![outputs@[i as int]@]);
        }
        nodes.push(node);
        i += 1;
    }
    proof {
        assert(outputs@.take(outputs.len() as int) == outputs@);
    }
    nodes
}

/// The outputs that stand for `nodes`, in order.
pub fn child_outputs(nodes: &[CovenantNode]) -> (outputs: Vec<OutputSpec>)
    ensures
        output_views(outputs@) == outputs_of(nodes@),
{
    let mut outputs: Vec<OutputSpec> = Vec::new();
    let mut i: usize = 0;
    while i < nodes.len()
        invariant
            i <= nodes.len(),
            output_views(outputs@) == outputs_of(nodes@.take(i as int)),
        decreases nodes.len() - i,
    {
        let output = nodes[i].to_output();
        proof {
            lemma_output_views_push(outputs@, output);
            assert(outputs_of(nodes@.take(i + 1)) == outputs_of(nodes@.take(i as int)).push(
                nodes@[i as int].output(),
            ));
        }
        outputs.push(output);
        i += 1;
    }
    proof {
        assert(nodes@.take(nodes.len() as int) == nodes@);
    }
    outputs
}

/// In a well-formed tree every node carries the sum of the values of the leaves
/// below it.
pub proof fn lemma_value_conservation(node: CovenantNode)
    requires
        node.wf(),
    ensures
        node.aggregate() == total_value(node.leaves()),
        node.output().value == node.aggregate(),
    decreases node, 1int,
{
    match node {
        CovenantNode::Leaf(output) => {
            assert(seq![output@].drop_last() == Seq::<OutputSpecView>::empty());
            assert(total_value(Seq::<OutputSpecView>::empty()) == 0);
        },
        CovenantNode::Internal { children, .. } => {
            lemma_values_conservation(children@);
        },
    }
}

/// The outputs of a list of well-formed trees carry, together, the sum of the
/// values of the leaves below them.
pub proof fn lemma_values_conservation(nodes: Seq<CovenantNode>)
    requires
        forall|i: int| 0 <= i < nodes.len() ==> (#[trigger] nodes[i]).wf(),
    ensures
        total_value(outputs_of(nodes)) == total_value(leaves_of(nodes)),
    decreases nodes, 0int,
{
    if nodes.len() > 0 {
        let front = nodes.drop_last();
        let last = nodes.last();
        assert(nodes[nodes.len() - 1].wf());
        assert forall|i: int| 0 <= i < front.len() implies (#[trigger] front[i]).wf() by {
            assert(nodes[i].wf());
        }
        lemma_values_conservation(front);
        lemma_value_conservation(last);
        assert(outputs_of(nodes).drop_last() == outputs_of(front));
        lemma_total_value_concat(leaves_of(front), last.leaves());
    } else {
        assert(outputs_of(nodes) == Seq::<OutputSpecView>::empty());
    }
}

/// The depth of a full tree is determined by the number of its leaves.
pub proof fn lemma_tree_depth(branching_factor: nat, depth: nat)
    requires
        branching_factor >= 2,
    ensures
        fills_tree(power(branching_factor, depth), branching_factor),
        tree_depth(power(branching_factor, depth), branching_factor) == depth,
{
    let count = power(branching_factor, depth);
    let chosen = tree_depth(count, branching_factor);
    if chosen < depth {
        lemma_power_increases(branching_factor, chosen, depth);
    } else if depth < chosen {
        lemma_power_increases(branching_factor, depth, chosen);
    }
}

/// Level by level: leaves fill a tree exactly where there is one leaf, or their
/// number can be divided by the branching factor and the groups fill a tree in
/// turn.
pub proof fn lemma_fills_tree_by_levels(count: nat, branching_factor: nat)
    requires
        branching_factor >= 2,
    ensures
        fills_tree(count, branching_factor) <==> count == 1 || (count % branching_factor == 0
            && fills_tree(count / branching_factor, branching_factor)),
{
    let factor = branching_factor;
    if fills_tree(count, factor) {
        let depth = tree_depth(count, factor);
        if depth > 0 {
            let below = power(factor, (depth - 1) as nat);
            assert((factor * below) % factor == 0 && (factor * below) / factor == below)
                by (nonlinear_arith)
                requires
                    factor >= 2,
                    below >= 0,
            ;
        }
    }
    if count == 1 {
        assert(count == power(factor, 0));
    }
    if count % factor == 0 && fills_tree(count / factor, factor) {
        let groups = count / factor;
        let depth = tree_depth(groups, factor);
        assert(count == factor * groups) by (nonlinear_arith)
            requires
                count % factor == 0,
                groups == count / factor,
                factor >= 2,
        ;
        assert(count == power(factor, depth + 1));
    }
}

/// A count strictly between two neighbouring powers is no power.
pub proof fn lemma_between_powers(count: nat, branching_factor: nat, depth: nat)
    requires
        branching_factor >= 2,
        power(branching_factor, depth) < count < power(branching_factor, depth + 1),
    ensures
        !fills_tree(count, branching_factor),
{
    assert forall|other: nat| count != power(branching_factor, other) by {
        if other < depth {
            lemma_power_increases(branching_factor, other, depth);
        } else if other > depth + 1 {
            lemma_power_increases(branching_factor, depth + 1, other);
        }
    }
}

/// A larger exponent gives a larger power.
pub proof fn lemma_power_increases(base: nat, low: nat, high: nat)
    requires
        base >= 2,
        low < high,
    ensures
        1 <= power(base, low) < power(base, high),
    decreases high,
{
    lemma_power_positive(base, low);
    if low + 1 < high {
        lemma_power_increases(base, low, (high - 1) as nat);
    }
    let previous = power(base, (high - 1) as nat);
    assert(previous < base * previous) by (nonlinear_arith)
        requires
            base >= 2,
            previous >= 1,
    ;
}

/// A power of a positive number is positive.
pub proof fn lemma_power_positive(base: nat, exponent: nat)
    requires
        base >= 1,
    ensures
        power(base, exponent) >= 1,
    decreases exponent,
{
    if exponent > 0 {
        lemma_power_positive(base, (exponent - 1) as nat);
        let previous = power(base, (exponent - 1) as nat);
        assert(base * previous >= 1) by (nonlinear_arith)
            requires
                base >= 1,
                previous >= 1,
        ;
    }
}

/// The leaves below a list of nodes with one more node.
pub proof fn lemma_leaves_of_push(nodes: Seq<CovenantNode>, last: CovenantNode)
    ensures
        leaves_of(nodes.push(last)) == leaves_of(nodes) + last.leaves(),
{
    assert(nodes.push(last).drop_last() == nodes);
}

/// Where some subtree has no output, the subtrees after it do not help.
pub proof fn lemma_subtree_outputs_none(
    leaves: Seq<OutputSpecView>,
    branching_factor: nat,
    depth: nat,
    internal_key: Seq<u8>,
    failed: nat,
    count: nat,
)
    requires
        failed <= count,
        subtree_outputs(leaves, branching_factor, depth, internal_key, failed) is None,
    ensures
        subtree_outputs(leaves, branching_factor, depth, internal_key, count) is None,
    decreases count,
{
    if failed < count {
        lemma_subtree_outputs_none(
            leaves,
            branching_factor,
            depth,
            internal_key,
            failed,
            (count - 1) as nat,
        );
    }
}

} // verus!
