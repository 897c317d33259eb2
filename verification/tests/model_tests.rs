// Each test here holds the library against a plain restatement of a byte
// layout, written out in the test itself.

use ctv_covenant::hasher::commit;
use ctv_covenant::encoding::encode_all;
use ctv_covenant::output::OutputSpec;
use ctv_covenant::spend::{OutPoint, SpendTx};
use ctv_covenant::witness::{classify_spk, ScriptItem, SpkKind};

struct Lcg(u64);

impl Lcg {
    fn next(&mut self) -> u64 {
        self.0 = self.0.wrapping_mul(6364136223846793005).wrapping_add(1442695040888963407);
        self.0 >> 11
    }

    fn bytes(&mut self, count: usize) -> Vec<u8> {
        (0..count).map(|_| self.next() as u8).collect()
    }
}

fn compact_size(n: u64) -> Vec<u8> {
    if n <= 0xfc {
        vec![n as u8]
    } else if n <= 0xffff {
        let mut bytes = vec![0xfd];
        bytes.extend_from_slice(&(n as u16).to_le_bytes());
        bytes
    } else if n <= 0xffff_ffff {
        let mut bytes = vec![0xfe];
        bytes.extend_from_slice(&(n as u32).to_le_bytes());
        bytes
    } else {
        let mut bytes = vec![0xff];
        bytes.extend_from_slice(&n.to_le_bytes());
        bytes
    }
}

fn encode_output(output: &OutputSpec) -> Vec<u8> {
    let mut bytes = output.value.to_le_bytes().to_vec();
    bytes.extend(compact_size(output.destination.len() as u64));
    bytes.extend_from_slice(&output.destination);
    bytes
}

fn encode_outputs(outputs: &[OutputSpec]) -> Vec<u8> {
    outputs.iter().flat_map(encode_output).collect()
}

fn serialize(tx: &SpendTx) -> Vec<u8> {
    let mut bytes = tx.version.to_le_bytes().to_vec();
    if !tx.witness.is_empty() {
        bytes.extend_from_slice(&[0x00, 0x01]);
    }
    bytes.push(0x01);
    bytes.extend_from_slice(&tx.previous_output.txid);
    bytes.extend_from_slice(&tx.previous_output.vout.to_le_bytes());
    bytes.extend(compact_size(tx.script_sig.len() as u64));
    bytes.extend_from_slice(&tx.script_sig);
    bytes.extend_from_slice(&tx.sequence.to_le_bytes());
    bytes.extend(compact_size(tx.outputs.len() as u64));
    bytes.extend(encode_outputs(&tx.outputs));
    if !tx.witness.is_empty() {
        bytes.extend(compact_size(tx.witness.len() as u64));
        for item in &tx.witness {
            bytes.extend(compact_size(item.len() as u64));
            bytes.extend_from_slice(item);
        }
    }
    bytes.extend_from_slice(&tx.lock_time.to_le_bytes());
    bytes
}

fn sha256(data: &[u8]) -> Vec<u8> {
    let digest = <bitcoin::hashes::sha256::Hash as bitcoin::hashes::Hash>::hash(data);
    <bitcoin::hashes::sha256::Hash as bitcoin::hashes::Hash>::to_byte_array(digest).to_vec()
}

fn digest(outputs: &[OutputSpec], sequence: Option<u32>) -> Vec<u8> {
    let mut bytes = 3i32.to_le_bytes().to_vec();
    bytes.extend_from_slice(&0i32.to_le_bytes());
    bytes.extend_from_slice(&1u32.to_le_bytes());
    bytes.extend(sha256(&sequence.unwrap_or(0xFFFF_FFFD).to_le_bytes()));
    bytes.extend_from_slice(&(outputs.len() as u32).to_le_bytes());
    bytes.extend(sha256(&encode_outputs(outputs)));
    bytes.extend_from_slice(&0u32.to_le_bytes());
    sha256(&bytes)
}

fn kind(spk: &[u8]) -> SpkKind {
    let n = spk.len();
    if n == 25 && spk[0] == 0x76 && spk[1] == 0xa9 && spk[2] == 0x14 && spk[23] == 0x88
        && spk[24] == 0xac
    {
        return SpkKind::P2pkh;
    }
    if n == 23 && spk[0] == 0xa9 && spk[1] == 0x14 && spk[22] == 0x87 {
        return SpkKind::P2sh;
    }
    let version_ok = n >= 1 && (spk[0] == 0 || (0x51..=0x60).contains(&spk[0]));
    if (4..=42).contains(&n) && version_ok && (2..=40).contains(&spk[1]) && n - 2 == spk[1] as usize
    {
        let version = if spk[0] == 0 { 0 } else { spk[0] - 0x50 };
        return match (version, n - 2) {
            (0, 20) => SpkKind::P2wpkh,
            (0, 32) => SpkKind::P2wsh,
            (0, _) => SpkKind::Nonstandard,
            (1, 32) => SpkKind::P2tr,
            _ => SpkKind::UnknownWitness,
        };
    }
    SpkKind::Nonstandard
}

#[test]
fn output_encoding_at_the_length_boundaries() {
    let mut random = Lcg(1);
    for length in [0usize, 1, 2, 0xfb, 0xfc, 0xfd, 0xfe, 0xff, 0x100, 0xffff, 0x1_0000, 0x1_0001] {
        let output = OutputSpec { value: random.next(), destination: random.bytes(length) };
        assert_eq!(output.encode(), encode_output(&output));
    }
    let low = OutputSpec { value: 0x0102_0304_0506_0708, destination: vec![0xaa, 0xbb] };
    assert_eq!(low.encode(), vec![8, 7, 6, 5, 4, 3, 2, 1, 2, 0xaa, 0xbb]);
}

#[test]
fn outputs_are_encoded_one_after_the_other() {
    let mut random = Lcg(2);
    for count in [0usize, 1, 2, 5, 40] {
        let outputs: Vec<OutputSpec> = (0..count)
            .map(|i| OutputSpec { value: random.next(), destination: random.bytes(i * 7 % 300) })
            .collect();
        assert_eq!(encode_all(&outputs), encode_outputs(&outputs));
    }
}

#[test]
fn digest_is_the_hash_of_the_laid_out_bytes() {
    let mut random = Lcg(3);
    for count in [0usize, 1, 2, 3, 17, 253, 300] {
        let outputs: Vec<OutputSpec> = (0..count)
            .map(|i| OutputSpec { value: random.next(), destination: random.bytes(20 + i % 15) })
            .collect();
        for sequence in [None, Some(0), Some(144), Some(u32::MAX)] {
            assert_eq!(commit(&outputs, sequence).to_vec(), digest(&outputs, sequence));
        }
    }
}

#[test]
fn serialization_is_the_chain_layout() {
    let mut random = Lcg(4);
    for outputs in [0usize, 1, 3, 0xfc, 0xfd] {
        for stack in [0usize, 1, 2, 5] {
            let mut txid = [0u8; 32];
            txid.copy_from_slice(&random.bytes(32));
            let tx = SpendTx {
                version: random.next() as i32,
                lock_time: random.next() as u32,
                previous_output: OutPoint { txid, vout: random.next() as u32 },
                script_sig: random.bytes(stack * 100),
                sequence: random.next() as u32,
                outputs: (0..outputs)
                    .map(|i| OutputSpec { value: random.next(), destination: random.bytes(i % 40) })
                    .collect(),
                witness: (0..stack).map(|i| random.bytes(i * 127 % 300)).collect(),
            };
            assert!(tx.witness_fits());
            let raw = tx.serialize();
            assert_eq!(raw, serialize(&tx));
            let parsed: bitcoin::Transaction = bitcoin::consensus::deserialize(&raw).unwrap();
            assert_eq!(parsed.output.len(), outputs);
            assert_eq!(parsed.input[0].witness.len(), stack);
        }
    }
}

#[test]
fn scripts_are_classified_by_their_byte_patterns() {
    let mut random = Lcg(5);
    let firsts = [0x00u8, 0x01, 0x4f, 0x50, 0x51, 0x52, 0x5f, 0x60, 0x61, 0x76, 0xa9, 0xff];
    let mut seen = std::collections::BTreeSet::new();
    for length in 0usize..=45 {
        for first in firsts {
            let fitting = length.wrapping_sub(2) as u8;
            for second in [0x00u8, 0x01, 0x02, 0x14, 0x20, 0x28, 0x29, 0xa9, fitting] {
                for tail in 0u8..4 {
                    let mut spk = random.bytes(length);
                    if length > 0 {
                        spk[0] = first;
                    }
                    if length > 1 {
                        spk[1] = second;
                    }
                    if length > 2 {
                        spk[2] = [0x14, 0x14, spk[2], spk[2]][tail as usize];
                        spk[length - 1] = [0x87, 0xac, spk[length - 1], 0x88][tail as usize];
                    }
                    if length > 3 && tail == 1 {
                        spk[length - 2] = 0x88;
                    }
                    let expected = kind(&spk);
                    assert_eq!(classify_spk(&spk), expected, "script {:02x?}", spk);
                    seen.insert(expected.label());
                }
            }
        }
    }
    for label in ["p2wpkh", "p2wsh", "p2tr", "unknown-witness", "p2sh", "p2pkh", "nonstandard"] {
        assert!(seen.contains(label), "no script of kind {label} was tried");
    }
}

#[test]
fn every_byte_in_hexadecimal() {
    let digits = b"0123456789abcdef";
    for byte in 0u8..=255 {
        let expected: String =
            [digits[(byte / 16) as usize] as char, digits[(byte % 16) as usize] as char]
                .iter()
                .collect();
        assert_eq!(
            ScriptItem::PushBytes(vec![byte]).describe(),
            format!("PushBytes(0x{expected})")
        );
    }
    let all: Vec<u8> = (0u8..=255).collect();
    let text = ScriptItem::PushBytes(all.clone()).describe();
    assert_eq!(text.len(), "PushBytes(0x)".len() + 512);
    assert_eq!(text, format!("PushBytes(0x{})", hex::encode(&all)));
}
