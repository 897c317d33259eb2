//! Covenant template commitments and the trees built from them.
//!
//! A template commitment is a 32-byte digest of the shape of a future
//! transaction. Wrapped in a restriction script and committed into a taproot
//! output, it lets whoever funds that output fix, in advance, the outputs of the
//! transaction that spends it. Trees of such commitments fan one funding output
//! out into many, one pre-agreed level at a time.
//!
//! The modules, leaf first:
//! - [`bytes`]: small helpers on byte strings;
//! - [`output`]: transaction outputs and sums over them;
//! - [`encoding`]: the canonical encoding of outputs;
//! - [`hasher`]: the commitment digest;
//! - [`script`]: restriction scripts and the other small scripts in use;
//! - [`taproot`]: single-leaf taproot commitments and their addresses;
//! - [`tree`]: covenant trees;
//! - [`spend`]: the spending transaction and its serialization;
//! - [`partition`]: the fee-aware split of an input value into leaves;
//! - [`contract`]: whole constructions, from an input value to an address;
//! - [`witness`]: classification of spent outputs and witness stacks;
//! - [`error`]: the errors.
//!
//! # What is proved, and what is believed
//!
//! Every function is verified against its contract, but for the private
//! functions marked `external_body`. Each of these calls into the `bitcoin` or
//! the `hex` crate and states what comes back:
//! - spelled out: the encoding of an output, the serialization of a
//!   transaction, the bytes that a script builder appends, what an output
//!   script pays to, and hexadecimal digits;
//! - by name only, as functions of their arguments: the SHA-256 digest, the
//!   taproot tweak, the text of an address, the instructions of a script, and
//!   the name of an opcode.

pub mod bytes;
pub mod contract;
pub mod encoding;
pub mod error;
pub mod hasher;
pub mod output;
pub mod partition;
pub mod script;
pub mod spend;
pub mod taproot;
pub mod tree;
pub mod witness;
