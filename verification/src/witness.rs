//! Looking at a spent output and the witness that spends it: what kind of
//! output it was, whether it was a covenant, and which path the spend took.

use crate::bytes::copy_bytes;
use crate::script::{p2tr_script, RESTRICTION_OPCODE};
use bitcoin::address::Payload;
use bitcoin::script::{self, Instruction};
use vstd::prelude::*;
use vstd::string::StringExecFns;

verus! {

/// The kinds of output script that are told apart.
#[derive(Debug, Clone, Copy, PartialEq, Eq, Structural)]
pub enum SpkKind {
    P2wpkh,
    P2wsh,
    P2tr,
    UnknownWitness,
    P2sh,
    P2pkh,
    Other,
    Nonstandard,
}

/// What an output script pays to, as far as its bytes tell.
#[derive(Debug, Clone, Copy, PartialEq, Eq, Structural)]
pub enum ScriptPayload {
    PubkeyHash,
    ScriptHash,
    WitnessProgram { version: u8, program_len: usize },
    Other,
    Unrecognized,
}

/// How a taproot output was spent, by the shape of the witness.
#[derive(Debug, PartialEq, Eq)]
pub enum SpendKind {
    /// One element: a signature for the output key.
    KeyPathSpend,
    /// Two elements or more: a script of the tree and the control block that
    /// proves it.
    ScriptPathSpend { leaf_script: Vec<u8>, control_block: Vec<u8> },
    /// An empty witness, which spends no taproot output.
    Unknown,
}

/// What a [`SpendKind`] stands for in contracts.
pub enum SpendKindView {
    KeyPathSpend,
    ScriptPathSpend { leaf_script: Seq<u8>, control_block: Seq<u8> },
    Unknown,
}

impl View for SpendKind {
    type V = SpendKindView;

    open spec fn view(&self) -> SpendKindView {
        match self {
            SpendKind::KeyPathSpend => SpendKindView::KeyPathSpend,
            SpendKind::ScriptPathSpend { leaf_script, control_block } => {
                SpendKindView::ScriptPathSpend {
                    leaf_script: leaf_script@,
                    control_block: control_block@,
                }
            },
            SpendKind::Unknown => SpendKindView::Unknown,
        }
    }
}

/// What an input of a transaction does.
#[derive(Debug, PartialEq, Eq)]
pub enum InputSpend {
    /// The input of a coinbase transaction, which spends nothing.
    Coinbase,
    /// It spends a taproot output.
    Taproot(SpendKind),
    /// It spends a version 0 key-hash output with a signature and a key.
    SegwitKey,
    /// It spends a version 0 script-hash output; the script is the last
    /// element of the witness.
    WitnessScript { witness_script: Vec<u8> },
    /// Anything else.
    Unknown,
}

/// What an [`InputSpend`] stands for in contracts.
pub enum InputSpendView {
    Coinbase,
    Taproot(SpendKindView),
    SegwitKey,
    WitnessScript { witness_script: Seq<u8> },
    Unknown,
}

impl View for InputSpend {
    type V = InputSpendView;

    open spec fn view(&self) -> InputSpendView {
        match self {
            InputSpend::Coinbase => InputSpendView::Coinbase,
            InputSpend::Taproot(kind) => InputSpendView::Taproot(kind@),
            InputSpend::SegwitKey => InputSpendView::SegwitKey,
            InputSpend::WitnessScript { witness_script } => InputSpendView::WitnessScript {
                witness_script: witness_script@,
            },
            InputSpend::Unknown => InputSpendView::Unknown,
        }
    }
}

/// One instruction of a script: an opcode that pushes no data, a push of data,
/// or the fault at which reading stopped.
#[derive(Debug, PartialEq, Eq)]
pub enum ScriptItem {
    Op(u8),
    PushBytes(Vec<u8>),
    Invalid(ScriptFault),
}

/// What a [`ScriptItem`] stands for in contracts.
pub enum ScriptItemView {
    Op(u8),
    PushBytes(Seq<u8>),
    Invalid(ScriptFault),
}

impl View for ScriptItem {
    type V = ScriptItemView;

    open spec fn view(&self) -> ScriptItemView {
        match self {
            ScriptItem::Op(opcode) => ScriptItemView::Op(*opcode),
            ScriptItem::PushBytes(data) => ScriptItemView::PushBytes(data@),
            ScriptItem::Invalid(fault) => ScriptItemView::Invalid(*fault),
        }
    }
}

/// Why a script could not be read to its end.
#[derive(Debug, Clone, Copy, PartialEq, Eq, Structural)]
pub enum ScriptFault {
    NonMinimalPush,
    EarlyEndOfScript,
    NumericOverflow,
    Other,
}

/// The views of a list of instructions, in order.
pub open spec fn item_views(items: Seq<ScriptItem>) -> Seq<ScriptItemView> {
    items.map_values(|item: ScriptItem| item@)
}

/// A pay-to-public-key-hash script: 25 bytes, `DUP HASH160 <20 bytes>
/// EQUALVERIFY CHECKSIG`.
pub open spec fn is_p2pkh(spk: Seq<u8>) -> bool {
    &&& spk.len() == 25
    &&& spk[0] == 0x76
    &&& spk[1] == 0xa9
    &&& spk[2] == 0x14
    &&& spk[23] == 0x88
    &&& spk[24] == 0xac
}

/// A pay-to-script-hash script: 23 bytes, `HASH160 <20 bytes> EQUAL`.
pub open spec fn is_p2sh(spk: Seq<u8>) -> bool {
    &&& spk.len() == 23
    &&& spk[0] == 0xa9
    &&& spk[1] == 0x14
    &&& spk[22] == 0x87
}

/// A witness program: a version opcode (0, or 1 to 16), then one push of 2 to
/// 40 bytes, and nothing else.
pub open spec fn is_witness_program(spk: Seq<u8>) -> bool {
    &&& 4 <= spk.len() <= 42
    &&& (spk[0] == 0 || 0x51 <= spk[0] <= 0x60)
    &&& 2 <= spk[1] <= 40
    &&& spk.len() - 2 == spk[1]
}

/// What an output script pays to. A version 0 witness program of a length other
/// than 20 or 32 bytes is not recognized.
pub open spec fn script_payload(spk: Seq<u8>) -> ScriptPayload {
    if is_p2pkh(spk) {
        ScriptPayload::PubkeyHash
    } else if is_p2sh(spk) {
        ScriptPayload::ScriptHash
    } else if is_witness_program(spk) {
        let version: u8 = if spk[0] == 0 {
            0
        } else {
            (spk[0] - 0x50) as u8
        };
        let program_len = (spk.len() - 2) as usize;
        if version == 0 && program_len != 20 && program_len != 32 {
            ScriptPayload::Unrecognized
        } else {
            ScriptPayload::WitnessProgram { version, program_len }
        }
    } else {
        ScriptPayload::Unrecognized
    }
}

/// The kind of an output script, given what it pays to.
pub open spec fn payload_kind(payload: ScriptPayload) -> SpkKind {
    match payload {
        ScriptPayload::WitnessProgram { version, program_len } => if version == 0 && program_len
            == 20 {
            SpkKind::P2wpkh
        } else if version == 0 && program_len == 32 {
            SpkKind::P2wsh
        } else if version == 1 && program_len == 32 {
            SpkKind::P2tr
        } else {
            SpkKind::UnknownWitness
        },
        ScriptPayload::ScriptHash => SpkKind::P2sh,
        ScriptPayload::PubkeyHash => SpkKind::P2pkh,
        ScriptPayload::Other => SpkKind::Other,
        ScriptPayload::Unrecognized => SpkKind::Nonstandard,
    }
}

/// How a witness stack spends a taproot output: the script is looked for in
/// the first element and the control block in the second, which is where the
/// spends of this library have them.
pub open spec fn spend_kind(witness: Seq<Vec<u8>>) -> SpendKindView {
    if witness.len() == 1 {
        SpendKindView::KeyPathSpend
    } else if witness.len() >= 2 {
        SpendKindView::ScriptPathSpend { leaf_script: witness[0]@, control_block: witness[1]@ }
    } else {
        SpendKindView::Unknown
    }
}

/// What an input does, given whether it is a coinbase input, the kind of the
/// output it spends, and its witness stack.
pub open spec fn input_spend(
    coinbase: bool,
    spent: SpkKind,
    witness: Seq<Vec<u8>>,
) -> InputSpendView {
    if coinbase {
        InputSpendView::Coinbase
    } else {
        match spent {
            SpkKind::P2tr => InputSpendView::Taproot(spend_kind(witness)),
            SpkKind::P2wpkh => InputSpendView::SegwitKey,
            SpkKind::P2wsh => InputSpendView::WitnessScript { witness_script: witness.last()@ },
            _ => InputSpendView::Unknown,
        }
    }
}

/// The instructions of a script, in order; after a fault there is none.
pub uninterp spec fn script_items(script: Seq<u8>) -> Seq<ScriptItemView>;

/// Whether one of the instructions is the restriction opcode.
pub open spec fn restricts(items: Seq<ScriptItemView>) -> bool {
    exists|i: int| 0 <= i < items.len() && items[i] == ScriptItemView::Op(RESTRICTION_OPCODE)
}

/// The name of an opcode, as in `OP_DUP`.
pub uninterp spec fn opcode_name(opcode: u8) -> Seq<char>;

/// The digit of a number below 16 in lower-case hexadecimal.
pub open spec fn hex_digit(nibble: u8) -> char {
    if nibble < 10 {
        (0x30 + nibble) as char
    } else {
        (0x61 + nibble - 10) as char
    }
}

/// Bytes in lower-case hexadecimal, two digits for each byte.
pub open spec fn hex_lower(data: Seq<u8>) -> Seq<char>
    decreases data.len(),
{
    if data.len() == 0 {
        Seq::empty()
    } else {
        hex_lower(data.drop_last()) + seq![
            hex_digit(data.last() / 16),
            hex_digit(data.last() % 16),
        ]
    }
}

/// The text that describes a fault.
pub open spec fn fault_text(fault: ScriptFault) -> Seq<char> {
    match fault {
        ScriptFault::NonMinimalPush => "NonMinimalPush"@,
        ScriptFault::EarlyEndOfScript => "EarlyEndOfScript"@,
        ScriptFault::NumericOverflow => "NumericOverflow"@,
        ScriptFault::Other => "Other"@,
    }
}

/// The text that describes an instruction: `Op(..)` around the opcode's name,
/// which for the restriction opcode is `OP_CTV`; `PushBytes(0x..)` around the
/// data in hexadecimal; or the fault.
pub open spec fn item_text(item: ScriptItemView) -> Seq<char> {
    match item {
        ScriptItemView::Op(opcode) => if opcode == RESTRICTION_OPCODE {
            "Op(OP_CTV)"@
        } else {
            "Op("@ + opcode_name(opcode) + ")"@
        },
        ScriptItemView::PushBytes(data) => "PushBytes(0x"@ + hex_lower(data) + ")"@,
        ScriptItemView::Invalid(fault) => "Error parsing instruction: "@ + fault_text(fault),
    }
}

/// Calls `bitcoin::address::Payload::from_script`. Trusted: a script is taken
/// for pay-to-public-key-hash, pay-to-script-hash or a witness program by the
/// byte patterns above, in this order, and for nothing else.
#[verifier::external_body]
fn read_payload(spk: &[u8]) -> (payload: ScriptPayload)
    ensures
        payload == script_payload(spk@),
{
    match Payload::from_script(bitcoin::Script::from_bytes(spk)) {
        Err(_) => ScriptPayload::Unrecognized,
        Ok(Payload::PubkeyHash(_)) => ScriptPayload::PubkeyHash,
        Ok(Payload::ScriptHash(_)) => ScriptPayload::ScriptHash,
        Ok(Payload::WitnessProgram(program)) => ScriptPayload::WitnessProgram {
            version: program.version().to_num(),
            program_len: program.program().len(),
        },
        Ok(_) => ScriptPayload::Other,
    }
}

/// Walks `bitcoin::Script::instructions` over the script. Trusted: the result
/// is the named list of instructions of the script.
#[verifier::external_body]
fn read_instructions(script: &[u8]) -> (items: Vec<ScriptItem>)
    ensures
        item_views(items@) == script_items(script@),
{
    let to_item = |step| match step {
        Ok(Instruction::Op(opcode)) => ScriptItem::Op(opcode.to_u8()),
        Ok(Instruction::PushBytes(data)) => ScriptItem::PushBytes(data.as_bytes().to_vec()),
        Err(script::Error::NonMinimalPush) => ScriptItem::Invalid(ScriptFault::NonMinimalPush),
        Err(script::Error::EarlyEndOfScript) => ScriptItem::Invalid(ScriptFault::EarlyEndOfScript),
        Err(script::Error::NumericOverflow) => ScriptItem::Invalid(ScriptFault::NumericOverflow),
        Err(_) => ScriptItem::Invalid(ScriptFault::Other),
    };
    bitcoin::Script::from_bytes(script).instructions().map(to_item).collect()
}

/// Formats a `bitcoin::Opcode` with `{:?}`. Trusted: the result is the name of
/// the opcode.
#[verifier::external_body]
fn format_opcode(opcode: u8) -> (name: String)
    ensures
        name@ == opcode_name(opcode),
{
    format!("{:?}", bitcoin::Opcode::from(opcode))
}

/// Calls `hex::encode`. Trusted: the result has two lower-case hexadecimal
/// digits for each byte, the high one first.
#[verifier::external_body]
fn hex_encode(data: &[u8]) -> (text: String)
    ensures
        text@ == hex_lower(data@),
{
    hex::encode(data)
}

/// The kind of the output script `spk`.
pub fn classify_spk(spk: &[u8]) -> (kind: SpkKind)
    ensures
        kind == payload_kind(script_payload(spk@)),
{
    classify_payload(read_payload(spk))
}

/// The kind of an output script, given what it pays to.
pub fn classify_payload(payload: ScriptPayload) -> (kind: SpkKind)
    ensures
        kind == payload_kind(payload),
{
    match payload {
        ScriptPayload::WitnessProgram { version, program_len } => {
            if version == 0 && program_len == 20 {
                SpkKind::P2wpkh
            } else if version == 0 && program_len == 32 {
                SpkKind::P2wsh
            } else if version == 1 && program_len == 32 {
                SpkKind::P2tr
            } else {
                SpkKind::UnknownWitness
            }
        },
        ScriptPayload::ScriptHash => SpkKind::P2sh,
        ScriptPayload::PubkeyHash => SpkKind::P2pkh,
        ScriptPayload::Other => SpkKind::Other,
        ScriptPayload::Unrecognized => SpkKind::Nonstandard,
    }
}

impl SpkKind {
    /// The usual short name of the kind.
    pub fn label(&self) -> (name: &'static str)
        ensures
            name@ == match *self {
                SpkKind::P2wpkh => "p2wpkh"@,
                SpkKind::P2wsh => "p2wsh"@,
                SpkKind::P2tr => "p2tr"@,
                SpkKind::UnknownWitness => "unknown-witness"@,
                SpkKind::P2sh => "p2sh"@,
                SpkKind::P2pkh => "p2pkh"@,
                SpkKind::Other => "other"@,
                SpkKind::Nonstandard => "nonstandard"@,
            },
    {
        match self {
            SpkKind::P2wpkh => "p2wpkh",
            SpkKind::P2wsh => "p2wsh",
            SpkKind::P2tr => "p2tr",
            SpkKind::UnknownWitness => "unknown-witness",
            SpkKind::P2sh => "p2sh",
            SpkKind::P2pkh => "p2pkh",
            SpkKind::Other => "other",
            SpkKind::Nonstandard => "nonstandard",
        }
    }
}

/// How the witness stack `witness` spends a taproot output.
pub fn classify_spend(witness: &[Vec<u8>]) -> (kind: SpendKind)
    ensures
        kind@ == spend_kind(witness@),
{
    if witness.len() == 1 {
        SpendKind::KeyPathSpend
    } else if witness.len() >= 2 {
        SpendKind::ScriptPathSpend {
            leaf_script: copy_bytes(witness[0].as_slice()),
            control_block: copy_bytes(witness[1].as_slice()),
        }
    } else {
        SpendKind::Unknown
    }
}

/// What an input does, given whether it is a coinbase input, the kind of the
/// output it spends, and its witness stack. An input that spends a version 0
/// script-hash output has a witness that is not empty.
pub fn analyze_input(coinbase: bool, spent: SpkKind, witness: &[Vec<u8>]) -> (spend: InputSpend)
    requires
        !coinbase && spent == SpkKind::P2wsh ==> witness@.len() > 0,
    ensures
        spend@ == input_spend(coinbase, spent, witness@),
{
    if coinbase {
        return InputSpend::Coinbase;
    }
    match spent {
        SpkKind::P2tr => InputSpend::Taproot(classify_spend(witness)),
        SpkKind::P2wpkh => InputSpend::SegwitKey,
        SpkKind::P2wsh => InputSpend::WitnessScript {
            witness_script: copy_bytes(witness[witness.len() - 1].as_slice()),
        },
        _ => InputSpend::Unknown,
    }
}

impl InputSpend {
    /// The line that says what the input does.
    pub open spec fn summary_text(&self) -> Seq<char> {
        match self@ {
            InputSpendView::Coinbase => "Coinbase input (no prevout)"@,
            InputSpendView::Taproot(SpendKindView::KeyPathSpend) => {
                "Key-path spend (schnorr sig only)"@
            },
            InputSpendView::Taproot(SpendKindView::ScriptPathSpend { .. }) => {
                "Script-path spend (tapleaf)"@
            },
            InputSpendView::Taproot(SpendKindView::Unknown) => "Unexpected witness layout"@,
            InputSpendView::SegwitKey => "SegWit key spend (P2WPKH or P2SH-P2WPKH), no script"@,
            InputSpendView::WitnessScript { .. } => "Witness script spend (P2WSH)"@,
            InputSpendView::Unknown => "Unknown or non-segwit input type"@,
        }
    }

    /// One line that says what the input does.
    pub fn summary(&self) -> (text: &'static str)
        ensures
            text@ == self.summary_text(),
    {
        match self {
            InputSpend::Coinbase => "Coinbase input (no prevout)",
            InputSpend::Taproot(SpendKind::KeyPathSpend) => "Key-path spend (schnorr sig only)",
            InputSpend::Taproot(SpendKind::ScriptPathSpend { .. }) => "Script-path spend (tapleaf)",
            InputSpend::Taproot(SpendKind::Unknown) => "Unexpected witness layout",
            InputSpend::SegwitKey => "SegWit key spend (P2WPKH or P2SH-P2WPKH), no script",
            InputSpend::WitnessScript { .. } => "Witness script spend (P2WSH)",
            InputSpend::Unknown => "Unknown or non-segwit input type",
        }
    }

    /// The script that the witness reveals, where it reveals one.
    pub fn revealed_script(&self) -> (script: Option<Vec<u8>>)
        ensures
            match self@ {
                InputSpendView::Taproot(SpendKindView::ScriptPathSpend { leaf_script, .. }) => {
                    script matches Some(bytes) && bytes@ == leaf_script
                },
                InputSpendView::WitnessScript { witness_script } => {
                    script matches Some(bytes) && bytes@ == witness_script
                },
                _ => script is None,
            },
    {
        match self {
            InputSpend::Taproot(SpendKind::ScriptPathSpend { leaf_script, .. }) => Some(
                copy_bytes(leaf_script.as_slice()),
            ),
            InputSpend::WitnessScript { witness_script } => Some(
                copy_bytes(witness_script.as_slice()),
            ),
            _ => None,
        }
    }
}

/// Whether the output script `spk` holds the restriction opcode, so that
/// spending it is spending a covenant.
pub fn spends_covenant(spk: &[u8]) -> (found: bool)
    ensures
        found == restricts(script_items(spk@)),
{
    let items = read_instructions(spk);
    has_restriction_opcode(items.as_slice())
}

/// The instructions of `script`, in order.
pub fn disassemble(script: &[u8]) -> (items: Vec<ScriptItem>)
    ensures
        item_views(items@) == script_items(script@),
{
    read_instructions(script)
}

/// Whether one of the instructions is the restriction opcode. A byte of that
/// value inside pushed data does not count.
pub fn has_restriction_opcode(items: &[ScriptItem]) -> (found: bool)
    ensures
        found == restricts(item_views(items@)),
{
    let mut i: usize = 0;
    while i < items.len()
        invariant
            i <= items.len(),
            forall|k: int|
                0 <= k < i ==> item_views(items@)[k] != ScriptItemView::Op(RESTRICTION_OPCODE),
        decreases items.len() - i,
    {
        match &items[i] {
            ScriptItem::Op(opcode) => {
                if *opcode == RESTRICTION_OPCODE {
                    assert(item_views(items@)[i as int] == ScriptItemView::Op(RESTRICTION_OPCODE));
                    return true;
                }
            },
            _ => {},
        }
        i += 1;
    }
    false
}

impl ScriptItem {
    /// The text that describes the instruction.
    pub fn describe(&self) -> (text: String)
        ensures
            text@ == item_text(self@),
    {
        match self {
            ScriptItem::Op(opcode) => {
                if *opcode == RESTRICTION_OPCODE {
                    String::from_str("Op(OP_CTV)")
                } else {
                    let name = format_opcode(*opcode);
                    String::from_str("Op(").concat(name.as_str()).concat(")")
                }
            },
            ScriptItem::PushBytes(data) => {
                let digits = hex_encode(data.as_slice());
                String::from_str("PushBytes(0x").concat(digits.as_str()).concat(")")
            },
            ScriptItem::Invalid(fault) => {
                let text = match fault {
                    ScriptFault::NonMinimalPush => "NonMinimalPush",
                    ScriptFault::EarlyEndOfScript => "EarlyEndOfScript",
                    ScriptFault::NumericOverflow => "NumericOverflow",
                    ScriptFault::Other => "Other",
                };
                String::from_str("Error parsing instruction: ").concat(text)
            },
        }
    }
}

/// The output scripts that this library makes for its commitments are taken
/// for taproot outputs.
pub proof fn lemma_commitment_output_is_p2tr(output_key: Seq<u8>)
    requires
        output_key.len() == 32,
    ensures
        payload_kind(script_payload(p2tr_script(output_key))) == SpkKind::P2tr,
{
    let spk = p2tr_script(output_key);
    assert(spk.len() == 34);
    assert(spk[0] == 0x51);
    assert(spk[1] == 32);
}

} // verus!
