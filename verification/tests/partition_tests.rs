use ctv_covenant::contract::{build_contract, tree_fee};
use ctv_covenant::error::CovenantError;
use ctv_covenant::hasher::commit;
use ctv_covenant::output::{checked_total, OutputSpec};
use ctv_covenant::partition::{
    dummy_spend, equal_outputs, equal_share, estimate_vsize, fan_out, partition,
    partition_with_budget, FeeBudget, SpendShape,
};
use ctv_covenant::script::{anchor_output, build_leaf};
use ctv_covenant::spend::{assemble_spend, spend_transaction, OutPoint};
use ctv_covenant::taproot::{commit_single_leaf, derive_address, Network};
use ctv_covenant::tree::{build_tree, CovenantNode};

fn key() -> [u8; 32] {
    let bytes = hex::decode("79be667ef9dcbbac55a06295ce870b07029bfcdb2dce28d959f2815b16f81798")
        .unwrap();
    let mut key = [0u8; 32];
    key.copy_from_slice(&bytes);
    key
}

fn p2wpkh() -> Vec<u8> {
    let mut script = vec![0x00, 0x14];
    script.extend_from_slice(&[0x33; 20]);
    script
}

fn shape(fee_floor: u64) -> SpendShape {
    SpendShape { leaf_destination: p2wpkh(), internal_key: key(), fee_floor }
}

fn budget(fee_rate: u64, reserved: Vec<OutputSpec>, estimated_vsize: u64) -> FeeBudget {
    FeeBudget { fee_rate, reserved_fixed_outputs: reserved, estimated_vsize }
}

#[test]
fn block_subsidy_into_fifty_leaves() {
    let input_value: u64 = 5_000_000_000;
    let (outputs, fee) = partition(input_value, 50, 1, &[], &shape(0)).unwrap();
    assert_eq!(outputs.len(), 50);
    for output in &outputs {
        assert_eq!(output.value, outputs[0].value);
        assert_eq!(output.destination, p2wpkh());
    }
    let dummy = dummy_spend(50, &[], &shape(0)).unwrap();
    assert_eq!(fee, dummy.serialize().len() as u64);
    assert_eq!(fee, estimate_vsize(&dummy, None));
    // 4 version, 2 marker and flag, 1 + 41 input, 1 + 50 * 31 outputs,
    // 1 + 35 + 34 witness, 4 lock time.
    assert_eq!(fee, 1673);
    assert_eq!(outputs[0].value, 99_999_966);
    let remainder = input_value - fee - 50 * outputs[0].value;
    assert_eq!(remainder, 27);
    assert!(remainder < 50);
    assert_eq!(remainder, (input_value - fee) % 50);
}

#[test]
fn dummy_spend_has_the_size_of_the_final_spend() {
    let reserved = vec![anchor_output()];
    let (outputs, fee) = partition(5_000_000_000, 50, 1, &reserved, &shape(0)).unwrap();
    assert_eq!(outputs.len(), 51);
    assert_eq!(outputs[50], anchor_output());
    assert_eq!(fee, 1686);
    let node = CovenantNode::flat(&outputs, &key()).unwrap();
    let raw = assemble_spend(OutPoint { txid: [7; 32], vout: 0 }, &node).unwrap();
    assert_eq!(raw.len() as u64, fee);
}

#[test]
fn dummy_spend_layout() {
    let reserved = vec![anchor_output()];
    let dummy = dummy_spend(3, &reserved, &shape(0)).unwrap();
    assert_eq!(dummy.version, 3);
    assert_eq!(dummy.lock_time, 0);
    assert_eq!(dummy.sequence, 0xFFFF_FFFD);
    assert_eq!(dummy.script_sig, Vec::<u8>::new());
    assert_eq!(dummy.previous_output, OutPoint { txid: [0; 32], vout: u32::MAX });
    assert_eq!(dummy.previous_output, OutPoint::null());
    assert_eq!(dummy.outputs.len(), 4);
    for output in &dummy.outputs[..3] {
        assert_eq!(output, &OutputSpec { value: 0, destination: p2wpkh() });
    }
    assert_eq!(dummy.outputs[3], anchor_output());
    let script = build_leaf(&commit(&dummy.outputs, None)).unwrap();
    let tap = commit_single_leaf(key(), script).unwrap();
    assert_eq!(dummy.witness, tap.witness_stack());
    assert_eq!(dummy.witness[0].len(), 34);
    assert_eq!(dummy.witness[1].len(), 33);
}

#[test]
fn dummy_spend_with_an_invalid_key() {
    let bad = SpendShape { leaf_destination: p2wpkh(), internal_key: [0u8; 32], fee_floor: 0 };
    assert_eq!(dummy_spend(3, &[], &bad), Err(CovenantError::TreeFinalize));
    assert_eq!(partition(1_000_000, 3, 1, &[], &bad), Err(CovenantError::TreeFinalize));
}

#[test]
fn measured_size_wins_over_the_serialized_length() {
    let dummy = dummy_spend(2, &[], &shape(0)).unwrap();
    assert_eq!(estimate_vsize(&dummy, Some(123)), 123);
    assert_eq!(estimate_vsize(&dummy, None), dummy.serialize().len() as u64);
    assert_eq!(estimate_vsize(&dummy, None), 4 + 2 + 1 + 41 + 1 + 2 * 31 + 70 + 4);
}

#[test]
fn fee_is_rate_times_size_or_the_floor() {
    assert_eq!(budget(2, vec![], 100).required_fee(0), Some(200));
    assert_eq!(budget(2, vec![], 100).required_fee(199), Some(200));
    assert_eq!(budget(2, vec![], 100).required_fee(200), Some(200));
    assert_eq!(budget(2, vec![], 100).required_fee(500), Some(500));
    assert_eq!(budget(0, vec![], 100).required_fee(0), Some(0));
    assert_eq!(budget(u64::MAX, vec![], 1).required_fee(0), Some(u64::MAX));
    assert_eq!(budget(u64::MAX, vec![], 2).required_fee(0), None);
    assert_eq!(budget(1 << 32, vec![], 1 << 32).required_fee(5), None);
}

#[test]
fn equal_share_rounds_down() {
    assert_eq!(equal_share(100, 3, 10, 0), Ok(30));
    assert_eq!(equal_share(100, 3, 10, 30), Ok(20));
    assert_eq!(equal_share(100, 1, 0, 0), Ok(100));
    assert_eq!(equal_share(13, 3, 10, 0), Ok(1));
    assert_eq!(equal_share(u64::MAX, 1, 0, 0), Ok(u64::MAX));
}

#[test]
fn equal_share_insufficient_funds() {
    // one unit short of a unit for each leaf
    assert_eq!(equal_share(12, 3, 10, 0), Err(CovenantError::InsufficientFunds));
    // the fee alone exceeds the input
    assert_eq!(equal_share(9, 3, 10, 0), Err(CovenantError::InsufficientFunds));
    // fee and reserved together exceed the input
    assert_eq!(equal_share(100, 3, 60, 41), Err(CovenantError::InsufficientFunds));
    assert_eq!(equal_share(100, 3, u64::MAX, u64::MAX), Err(CovenantError::InsufficientFunds));
    assert_eq!(equal_share(0, 1, 0, 0), Err(CovenantError::InsufficientFunds));
}

#[test]
fn partition_with_budget_exact_values() {
    let reserved = vec![anchor_output()];
    let (outputs, fee) =
        partition_with_budget(10_000, 4, &p2wpkh(), 0, &budget(2, reserved, 150)).unwrap();
    assert_eq!(fee, 300);
    // 10000 - 300 - 330 = 9370 = 4 * 2342 + 2
    assert_eq!(outputs.len(), 5);
    for output in &outputs[..4] {
        assert_eq!(output, &OutputSpec { value: 2342, destination: p2wpkh() });
    }
    assert_eq!(outputs[4], anchor_output());
    assert_eq!(checked_total(&outputs), Some(4 * 2342 + 330));
}

#[test]
fn partition_with_budget_uses_the_floor() {
    let (outputs, fee) =
        partition_with_budget(10_000, 4, &p2wpkh(), 500, &budget(1, vec![], 150)).unwrap();
    assert_eq!(fee, 500);
    assert_eq!(outputs[0].value, 2375);
}

#[test]
fn partition_with_budget_insufficient_funds() {
    let reserved = vec![anchor_output()];
    assert_eq!(
        partition_with_budget(633, 4, &p2wpkh(), 0, &budget(2, reserved.clone(), 150)),
        Err(CovenantError::InsufficientFunds)
    );
    assert!(partition_with_budget(634, 4, &p2wpkh(), 0, &budget(2, reserved, 150)).is_ok());
    assert_eq!(
        partition_with_budget(100, 4, &p2wpkh(), 0, &budget(u64::MAX, vec![], 2)),
        Err(CovenantError::InsufficientFunds)
    );
    let huge = vec![
        OutputSpec { value: u64::MAX, destination: vec![] },
        OutputSpec { value: 1, destination: vec![] },
    ];
    assert_eq!(
        partition_with_budget(u64::MAX, 1, &p2wpkh(), 0, &budget(0, huge, 0)),
        Err(CovenantError::InsufficientFunds)
    );
}

#[test]
fn partition_conserves_value() {
    for input_value in [1_000u64, 99_999, 5_000_000_000] {
        for leaf_count in [1usize, 2, 7, 50, 100] {
            for fee_rate in [1u64, 3, 100] {
                for vsize in [0u64, 1, 250] {
                    let reserved = vec![anchor_output()];
                    let split = partition_with_budget(
                        input_value,
                        leaf_count,
                        &p2wpkh(),
                        0,
                        &budget(fee_rate, reserved, vsize),
                    );
                    let fee = vsize * fee_rate;
                    match split {
                        Ok((outputs, paid)) => {
                            assert_eq!(paid, fee);
                            let per_leaf = outputs[0].value;
                            let spent = per_leaf * leaf_count as u64 + fee + 330;
                            assert_eq!(checked_total(&outputs), Some(spent - fee));
                            assert!(spent <= input_value);
                            assert!(input_value - spent < leaf_count as u64);
                            assert!(per_leaf >= 1);
                        }
                        Err(error) => {
                            assert_eq!(error, CovenantError::InsufficientFunds);
                            assert!(input_value < fee + 330 + leaf_count as u64);
                        }
                    }
                }
            }
        }
    }
}

#[test]
fn fan_out_puts_reserved_outputs_last() {
    let reserved = vec![anchor_output(), OutputSpec { value: 9, destination: vec![0x6a] }];
    let outputs = fan_out(2, 77, &p2wpkh(), &reserved);
    assert_eq!(
        outputs,
        vec![
            OutputSpec { value: 77, destination: p2wpkh() },
            OutputSpec { value: 77, destination: p2wpkh() },
            anchor_output(),
            OutputSpec { value: 9, destination: vec![0x6a] },
        ]
    );
    assert_eq!(fan_out(0, 77, &p2wpkh(), &[]), vec![]);
}

#[test]
fn equal_outputs_one_for_each_destination() {
    let destinations = vec![vec![1u8], vec![2u8, 2], vec![3u8], vec![4u8]];
    let outputs = equal_outputs(1003, &destinations);
    assert_eq!(outputs.len(), 4);
    for (output, destination) in outputs.iter().zip(destinations.iter()) {
        assert_eq!(output.value, 250);
        assert_eq!(&output.destination, destination);
    }
    assert_eq!(equal_outputs(1003, &[]), vec![]);
}

#[test]
fn contract_commits_to_the_partition() {
    let reserved = vec![anchor_output()];
    let budget = budget(1, reserved.clone(), 1686);
    let contract = build_contract(5_000_000_000, 50, &budget, &shape(0), Network::Regtest).unwrap();
    assert_eq!(contract.fee, 1686);
    let (outputs, fee) =
        partition_with_budget(5_000_000_000, 50, &p2wpkh(), 0, &budget).unwrap();
    assert_eq!(fee, contract.fee);
    assert_eq!(contract.node, CovenantNode::flat(&outputs, &key()).unwrap());
    match &contract.node {
        CovenantNode::Internal { children, aggregate_value, commitment, tap } => {
            assert_eq!(children.len(), 51);
            // 5000000000 - 1686 - 330 = 50 * 99999959 + 34
            assert_eq!(*aggregate_value, 50 * 99_999_959 + 330);
            assert_eq!(*aggregate_value, 5_000_000_000 - 1686 - 34);
            assert_eq!(commitment.committed_outputs, outputs);
            assert_eq!(contract.address, derive_address(&tap.output_key, Network::Regtest));
            assert!(contract.address.starts_with("bcrt1p"));
        }
        CovenantNode::Leaf(_) => panic!("a contract is a commitment"),
    }
    let spend = spend_transaction(OutPoint { txid: [1; 32], vout: 0 }, &contract.node).unwrap();
    assert_eq!(spend.outputs, outputs);
}

#[test]
fn contract_errors() {
    assert_eq!(
        build_contract(1_000, 50, &budget(1, vec![], 1686), &shape(0), Network::Regtest),
        Err(CovenantError::InsufficientFunds)
    );
    let bad = SpendShape { leaf_destination: p2wpkh(), internal_key: [0u8; 32], fee_floor: 0 };
    assert_eq!(
        build_contract(1_000_000, 5, &budget(1, vec![], 100), &bad, Network::Regtest),
        Err(CovenantError::TreeFinalize)
    );
}

#[test]
fn tree_fee_is_the_size_of_the_root_spend_or_the_floor() {
    // The root spend of a tree of four: two taproot outputs, a witness.
    let size: u64 = 4 + 2 + 1 + 41 + 1 + 2 * (8 + 1 + 34) + 70 + 4;
    assert_eq!(tree_fee(4, 2, &shape(500), 1, None), Ok(500));
    assert_eq!(tree_fee(4, 2, &shape(0), 1, None), Ok(size));
    assert_eq!(tree_fee(4, 2, &shape(0), 3, None), Ok(3 * size));
    assert_eq!(tree_fee(4, 2, &shape(0), 3, Some(100)), Ok(300));
    let leaves = fan_out(4, 0, &p2wpkh(), &[]);
    let root = build_tree(&leaves, 2, &key()).unwrap();
    let raw = assemble_spend(OutPoint::null(), &root).unwrap();
    assert_eq!(raw.len() as u64, size);
}

#[test]
fn tree_fee_errors() {
    assert_eq!(tree_fee(3, 2, &shape(0), 1, None), Err(CovenantError::UnbalancedTree));
    assert_eq!(tree_fee(0, 2, &shape(0), 1, None), Err(CovenantError::UnbalancedTree));
    assert_eq!(tree_fee(1, 2, &shape(0), 1, None), Err(CovenantError::CommitmentMismatch));
    let bad = SpendShape { leaf_destination: p2wpkh(), internal_key: [0u8; 32], fee_floor: 0 };
    assert_eq!(tree_fee(4, 2, &bad, 1, None), Err(CovenantError::TreeFinalize));
    assert_eq!(
        tree_fee(4, 2, &shape(0), u64::MAX, Some(2)),
        Err(CovenantError::InsufficientFunds)
    );
}
