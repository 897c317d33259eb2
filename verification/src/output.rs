//! Transaction outputs, and sums over them.

use crate::bytes::copy_bytes;
use vstd::prelude::*;

verus! {

/// One output of a transaction: an amount in the chain's smallest unit and the
/// script that locks it. Where outputs stand in a list, their order matters.
#[derive(Debug, PartialEq, Eq)]
pub struct OutputSpec {
    pub value: u64,
    pub destination: Vec<u8>,
}

/// What an [`OutputSpec`] stands for in contracts.
pub struct OutputSpecView {
    pub value: u64,
    pub destination: Seq<u8>,
}

impl View for OutputSpec {
    type V = OutputSpecView;

    open spec fn view(&self) -> OutputSpecView {
        OutputSpecView { value: self.value, destination: self.destination@ }
    }
}

impl Clone for OutputSpec {
    fn clone(&self) -> (copy: OutputSpec)
        ensures
            copy@ == self@,
    {
        OutputSpec { value: self.value, destination: copy_bytes(self.destination.as_slice()) }
    }
}

/// The views of a list of outputs, in order.
pub open spec fn output_views(outputs: Seq<OutputSpec>) -> Seq<OutputSpecView> {
    outputs.map_values(|o: OutputSpec| o@)
}

/// The sum of the values of a list of outputs.
pub open spec fn total_value(outputs: Seq<OutputSpecView>) -> nat
    decreases outputs.len(),
{
    if outputs.len() == 0 {
        0
    } else {
        total_value(outputs.drop_last()) + outputs.last().value as nat
    }
}

/// The sum of the values of `outputs`, or `None` where it does not fit in 64
/// bits.
pub fn checked_total(outputs: &[OutputSpec]) -> (sum: Option<u64>)
    ensures
        match sum {
            Some(total) => total == total_value(output_views(outputs@)),
            None => total_value(output_views(outputs@)) > u64::MAX,
        },
{
    let ghost views = output_views(outputs@);
    let mut total: u64 = 0;
    let mut i: usize = 0;
    while i < outputs.len()
        invariant
            i <= outputs.len(),
            views == output_views(outputs@),
            total == total_value(views.take(i as int)),
        decreases outputs.len() - i,
    {
        proof {
            assert(views.take(i + 1).drop_last() == views.take(i as int));
            assert(views.take(i + 1).last() == outputs@[i as int]@);
            lemma_total_value_subrange(views, 0, i + 1);
        }
        match total.checked_add(outputs[i].value) {
            Some(next) => {
                total = next;
            },
            None => {
                return None;
            },
        }
        i += 1;
    }
    proof {
        assert(views.take(outputs.len() as int) == views);
    }
    Some(total)
}

/// A copy of a list of outputs.
pub fn copy_outputs(outputs: &[OutputSpec]) -> (copy: Vec<OutputSpec>)
    ensures
        output_views(copy@) == output_views(outputs@),
{
    let mut copy: Vec<OutputSpec> = Vec::new();
    let mut i: usize = 0;
    while i < outputs.len()
        invariant
            i <= outputs.len(),
            output_views(copy@) == output_views(outputs@.take(i as int)),
        decreases outputs.len() - i,
    {
        proof {
            lemma_output_views_push(outputs@.take(i as int), outputs@[i as int]);
            lemma_output_views_push(copy@, outputs@[i as int]);
            assert(outputs@.take(i + 1) == outputs@.take(i as int).push(outputs@[i as int]));
        }
        let ghost before = copy@;
        copy.push(outputs[i].clone());
        proof {
            assert(output_views(copy@) == output_views(before).push(outputs@[i as int]@));
        }
        i += 1;
    }
    proof {
        assert(outputs@.take(outputs.len() as int) == outputs@);
    }
    copy
}

/// The views of a list with one more output are those of the list, and then
/// the view of that output.
pub proof fn lemma_output_views_push(outputs: Seq<OutputSpec>, last: OutputSpec)
    ensures
        output_views(outputs.push(last)) == output_views(outputs).push(last@),
{
    assert(output_views(outputs.push(last)) =~= output_views(outputs).push(last@));
}

/// The sum over two lists, one after the other, is the sum of their sums.
pub proof fn lemma_total_value_concat(left: Seq<OutputSpecView>, right: Seq<OutputSpecView>)
    ensures
        total_value(left + right) == total_value(left) + total_value(right),
    decreases right.len(),
{
    if right.len() == 0 {
        assert(left + right == left);
    } else {
        lemma_total_value_concat(left, right.drop_last());
        assert((left + right).drop_last() == left + right.drop_last());
        assert((left + right).last() == right.last());
    }
}

/// The sum over a part of a list is at most the sum over the list.
pub proof fn lemma_total_value_subrange(outputs: Seq<OutputSpecView>, from: int, to: int)
    requires
        0 <= from <= to <= outputs.len(),
    ensures
        total_value(outputs.subrange(from, to)) <= total_value(outputs),
{
    let before = outputs.subrange(0, from);
    let part = outputs.subrange(from, to);
    let after = outputs.subrange(to, outputs.len() as int);
    assert(outputs == before + part + after);
    lemma_total_value_concat(before, part);
    lemma_total_value_concat(before + part, after);
}

} // verus!
