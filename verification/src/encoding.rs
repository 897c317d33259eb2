//! The canonical byte encoding of outputs, and why it can be read back.

use crate::bytes::append_bytes;
use crate::output::{output_views, OutputSpec, OutputSpecView};
use vstd::bytes::*;
use vstd::prelude::*;

verus! {

/// The variable-length encoding of a count or a length: one byte below 0xFD,
/// else a marker byte and the number in 2, 4 or 8 little-endian bytes.
pub open spec fn compact_size(n: nat) -> Seq<u8> {
    if n <= 0xFC {
        seq![n as u8]
    } else if n <= 0xFFFF {
        seq![0xFDu8] + spec_u16_to_le_bytes(n as u16)
    } else if n <= 0xFFFF_FFFF {
        seq![0xFEu8] + spec_u32_to_le_bytes(n as u32)
    } else {
        seq![0xFFu8] + spec_u64_to_le_bytes(n as u64)
    }
}

/// The canonical encoding of one output: the value in 8 little-endian bytes,
/// then the script with its length in front.
pub open spec fn encode_output(output: OutputSpecView) -> Seq<u8> {
    spec_u64_to_le_bytes(output.value) + compact_size(output.destination.len())
        + output.destination
}

/// The encodings of the outputs of a list, one after the other.
pub open spec fn encode_outputs(outputs: Seq<OutputSpecView>) -> Seq<u8>
    decreases outputs.len(),
{
    if outputs.len() == 0 {
        Seq::empty()
    } else {
        encode_outputs(outputs.drop_last()) + encode_output(outputs.last())
    }
}

/// An output whose script has a length of at most 64 bits, as every output in
/// memory has.
pub open spec fn encodable(output: OutputSpecView) -> bool {
    output.destination.len() <= u64::MAX
}

/// Calls `bitcoin::consensus::serialize` on a `bitcoin::TxOut` with the value and
/// script of `output`. Trusted: the bytes are the amount as a little-endian
/// `u64`, the script's length as a `VarInt`, and the script.
#[verifier::external_body]
fn consensus_encode_output(output: &OutputSpec) -> (bytes: Vec<u8>)
    ensures
        bytes@ == encode_output(output@),
{
    bitcoin::consensus::serialize(
        &bitcoin::TxOut {
            value: bitcoin::Amount::from_sat(output.value),
            script_pubkey: bitcoin::ScriptBuf::from_bytes(output.destination.clone()),
        },
    )
}

impl OutputSpec {
    /// The canonical encoding of this output.
    pub fn encode(&self) -> (bytes: Vec<u8>)
        ensures
            bytes@ == encode_output(self@),
    {
        consensus_encode_output(self)
    }
}

/// The canonical encodings of `outputs`, concatenated in order.
pub fn encode_all(outputs: &[OutputSpec]) -> (bytes: Vec<u8>)
    ensures
        bytes@ == encode_outputs(output_views(outputs@)),
{
    let mut bytes: Vec<u8> = Vec::new();
    let mut i: usize = 0;
    while i < outputs.len()
        invariant
            i <= outputs.len(),
            bytes@ == encode_outputs(output_views(outputs@.take(i as int))),
        decreases outputs.len() - i,
    {
        let encoded = outputs[i].encode();
        proof {
            let next = output_views(outputs@.take(i + 1));
            assert(next.drop_last() == output_views(outputs@.take(i as int)));
            assert(next.last() == outputs@[i as int]@);
        }
        append_bytes(&mut bytes, encoded.as_slice());
        i += 1;
    }
    proof {
        assert(outputs@.take(outputs.len() as int) == outputs@);
    }
    bytes
}

/// The number of bytes that the variable-length encoding of `n` takes.
pub fn compact_size_len(n: usize) -> (len: u64)
    ensures
        len == compact_size(n as nat).len(),
        1 <= len <= 9,
{
    proof {
        lemma_auto_spec_u16_to_from_le_bytes();
        lemma_auto_spec_u32_to_from_le_bytes();
        lemma_auto_spec_u64_to_from_le_bytes();
    }
    if n <= 0xFC {
        1
    } else if n <= 0xFFFF {
        3
    } else if n <= 0xFFFF_FFFF {
        5
    } else {
        9
    }
}

/// The encoding of a list of outputs tells the list: two lists with the same
/// encoding are the same list, output by output and in the same order.
pub proof fn lemma_encode_outputs_injective(first: Seq<OutputSpecView>, second: Seq<OutputSpecView>)
    requires
        forall|i: int| 0 <= i < first.len() ==> encodable(#[trigger] first[i]),
        forall|i: int| 0 <= i < second.len() ==> encodable(#[trigger] second[i]),
        encode_outputs(first) == encode_outputs(second),
    ensures
        first == second,
    decreases first.len(),
{
    lemma_auto_spec_u64_to_from_le_bytes();
    if first.len() == 0 {
        if second.len() > 0 {
            lemma_encode_outputs_first(second);
            assert(encode_outputs(second).len() >= 8);
        }
        assert(first =~= second);
    } else if second.len() == 0 {
        lemma_encode_outputs_first(first);
        assert(encode_outputs(first).len() >= 8);
    } else {
        lemma_encode_outputs_first(first);
        lemma_encode_outputs_first(second);
        assert(encodable(first[0]) && encodable(second[0]));
        lemma_encode_output_prefix(
            first.first(),
            second.first(),
            encode_outputs(first.drop_first()),
            encode_outputs(second.drop_first()),
        );
        assert forall|i: int| 0 <= i < first.drop_first().len() implies encodable(
            #[trigger] first.drop_first()[i],
        ) by {
            assert(encodable(first[i + 1]));
        }
        assert forall|i: int| 0 <= i < second.drop_first().len() implies encodable(
            #[trigger] second.drop_first()[i],
        ) by {
            assert(encodable(second[i + 1]));
        }
        lemma_encode_outputs_injective(first.drop_first(), second.drop_first());
        assert(first =~= seq![first.first()] + first.drop_first());
        assert(second =~= seq![second.first()] + second.drop_first());
    }
}

/// The encoding of a list is the encoding of its first output, then that of
/// the rest.
pub proof fn lemma_encode_outputs_first(outputs: Seq<OutputSpecView>)
    requires
        outputs.len() > 0,
    ensures
        encode_outputs(outputs) == encode_output(outputs.first()) + encode_outputs(
            outputs.drop_first(),
        ),
    decreases outputs.len(),
{
    if outputs.len() == 1 {
        assert(outputs.drop_last() =~= Seq::<OutputSpecView>::empty());
        assert(outputs.drop_first() =~= Seq::<OutputSpecView>::empty());
        assert(encode_outputs(outputs) =~= encode_output(outputs.first()) + encode_outputs(
            outputs.drop_first(),
        ));
    } else {
        lemma_encode_outputs_first(outputs.drop_last());
        assert(outputs.drop_last().drop_first() =~= outputs.drop_first().drop_last());
        assert(outputs.drop_first().last() == outputs.last());
        assert(encode_outputs(outputs) =~= encode_output(outputs.first()) + encode_outputs(
            outputs.drop_first(),
        ));
    }
}

/// The encoding of an output tells the output: where the encodings of two
/// outputs, each followed by anything, agree, the outputs are the same, and so
/// is what follows.
pub proof fn lemma_encode_output_prefix(
    first: OutputSpecView,
    second: OutputSpecView,
    after_first: Seq<u8>,
    after_second: Seq<u8>,
)
    requires
        encodable(first),
        encodable(second),
        encode_output(first) + after_first == encode_output(second) + after_second,
    ensures
        first == second,
        after_first == after_second,
{
    lemma_auto_spec_u64_to_from_le_bytes();
    let left = encode_output(first) + after_first;
    let right = encode_output(second) + after_second;
    let value_first = spec_u64_to_le_bytes(first.value);
    let value_second = spec_u64_to_le_bytes(second.value);
    assert(left.subrange(0, 8) =~= value_first);
    assert(right.subrange(0, 8) =~= value_second);
    assert(spec_u64_from_le_bytes(value_first) == first.value);
    assert(spec_u64_from_le_bytes(value_second) == second.value);
    assert(first.value == second.value);
    let rest_first = first.destination + after_first;
    let rest_second = second.destination + after_second;
    assert(left.subrange(8, left.len() as int) =~= compact_size(first.destination.len())
        + rest_first);
    assert(right.subrange(8, right.len() as int) =~= compact_size(second.destination.len())
        + rest_second);
    lemma_compact_size_prefix(
        first.destination.len(),
        second.destination.len(),
        rest_first,
        rest_second,
    );
    let size = compact_size(first.destination.len()).len() as int;
    let length = first.destination.len() as int;
    assert(left.subrange(8 + size, 8 + size + length) =~= first.destination);
    assert(right.subrange(8 + size, 8 + size + length) =~= second.destination);
    assert(left.subrange(8 + size + length, left.len() as int) =~= after_first);
    assert(right.subrange(8 + size + length, right.len() as int) =~= after_second);
}

/// The encoding of a length tells the length: where the encodings of two
/// lengths of at most 64 bits, each followed by anything, agree, the lengths
/// are the same.
pub proof fn lemma_compact_size_prefix(
    first: nat,
    second: nat,
    after_first: Seq<u8>,
    after_second: Seq<u8>,
)
    requires
        first <= u64::MAX,
        second <= u64::MAX,
        compact_size(first) + after_first == compact_size(second) + after_second,
    ensures
        first == second,
{
    lemma_auto_spec_u16_to_from_le_bytes();
    lemma_auto_spec_u32_to_from_le_bytes();
    lemma_auto_spec_u64_to_from_le_bytes();
    let left = compact_size(first) + after_first;
    let right = compact_size(second) + after_second;
    assert(left[0] == compact_size(first)[0]);
    assert(right[0] == compact_size(second)[0]);
    if first <= 0xFC {
        assert(first as u8 == first);
    } else if first <= 0xFFFF {
        let a = spec_u16_to_le_bytes(first as u16);
        let b = spec_u16_to_le_bytes(second as u16);
        assert(left.subrange(1, 3) =~= a);
        assert(right.subrange(1, 3) =~= b);
        assert(spec_u16_from_le_bytes(a) == first as u16);
        assert(spec_u16_from_le_bytes(b) == second as u16);
    } else if first <= 0xFFFF_FFFF {
        let a = spec_u32_to_le_bytes(first as u32);
        let b = spec_u32_to_le_bytes(second as u32);
        assert(left.subrange(1, 5) =~= a);
        assert(right.subrange(1, 5) =~= b);
        assert(spec_u32_from_le_bytes(a) == first as u32);
        assert(spec_u32_from_le_bytes(b) == second as u32);
    } else {
        let a = spec_u64_to_le_bytes(first as u64);
        let b = spec_u64_to_le_bytes(second as u64);
        assert(left.subrange(1, 9) =~= a);
        assert(right.subrange(1, 9) =~= b);
        assert(spec_u64_from_le_bytes(a) == first as u64);
        assert(spec_u64_from_le_bytes(b) == second as u64);
    }
}

/// The length of the encoding of a list depends on the lengths of the scripts
/// only, not on the values nor on what the scripts hold.
pub proof fn lemma_encode_outputs_len(first: Seq<OutputSpecView>, second: Seq<OutputSpecView>)
    requires
        first.len() == second.len(),
        forall|i: int|
            0 <= i < first.len() ==> (#[trigger] first[i]).destination.len()
                == second[i].destination.len(),
    ensures
        encode_outputs(first).len() == encode_outputs(second).len(),
    decreases first.len(),
{
    lemma_auto_spec_u64_to_from_le_bytes();
    if first.len() > 0 {
        let last = first.len() - 1;
        assert(first[last].destination.len() == second[last].destination.len());
        assert forall|i: int| 0 <= i < first.drop_last().len() implies (
        #[trigger] first.drop_last()[i]).destination.len()
            == second.drop_last()[i].destination.len() by {
            assert(first[i].destination.len() == second[i].destination.len());
        }
        lemma_encode_outputs_len(first.drop_last(), second.drop_last());
    }
}

} // verus!
