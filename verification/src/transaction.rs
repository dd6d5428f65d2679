//! Transactions: transfers of value between inputs and outputs.

use vstd::prelude::*;
use crate::hash::{Hash256, zero_digest};

verus! {

/// The output index that marks a coinbase input.
pub const COINBASE_OUTPUT_INDEX: u32 = 0xFFFFFFFF;

/// Mathematical model of a transaction input.
#[verifier::ext_equal]
pub struct InputView {
    pub previous_output: Seq<u8>,
    pub output_index: u32,
    pub signature: Seq<u8>,
    pub public_key: Seq<u8>,
}

/// Mathematical model of a transaction output.
#[verifier::ext_equal]
pub struct OutputView {
    pub amount: u64,
    pub recipient: Seq<u8>,
}

/// Mathematical model of a transaction.
#[verifier::ext_equal]
pub struct TransactionView {
    pub version: u32,
    pub inputs: Seq<InputView>,
    pub outputs: Seq<OutputView>,
    pub locktime: u64,
}

/// Transaction input: spends an output of an earlier transaction.
#[derive(Clone, Debug)]
pub struct TransactionInput {
    /// Digest of the transaction holding the output being spent.
    pub previous_output: Hash256,
    /// Index of that output in the previous transaction.
    pub output_index: u32,
    /// Signature proving ownership (64 bytes when present).
    pub signature: Vec<u8>,
    /// Public key of the spender.
    pub public_key: Vec<u8>,
}

/// Transaction output: creates new spendable coins.
#[derive(Clone, Debug)]
pub struct TransactionOutput {
    /// Amount in the smallest currency unit.
    pub amount: u64,
    /// Public-key hash of the recipient (20 bytes).
    pub recipient: Vec<u8>,
}

/// A transfer of value.
#[derive(Clone, Debug)]
pub struct Transaction {
    /// Transaction format version.
    pub version: u32,
    /// Coins being spent.
    pub inputs: Vec<TransactionInput>,
    /// Coins being created.
    pub outputs: Vec<TransactionOutput>,
    /// Height or timestamp before which the transaction is invalid.
    pub locktime: u64,
}

impl View for TransactionInput {
    type V = InputView;

    open spec fn view(&self) -> InputView {
        InputView {
            previous_output: self.previous_output@,
            output_index: self.output_index,
            signature: self.signature@,
            public_key: self.public_key@,
        }
    }
}

impl View for TransactionOutput {
    type V = OutputView;

    open spec fn view(&self) -> OutputView {
        OutputView { amount: self.amount, recipient: self.recipient@ }
    }
}

impl View for Transaction {
    type V = TransactionView;

    open spec fn view(&self) -> TransactionView {
        TransactionView {
            version: self.version,
            inputs: self.inputs@.map_values(|i: TransactionInput| i@),
            outputs: self.outputs@.map_values(|o: TransactionOutput| o@),
            locktime: self.locktime,
        }
    }
}

/// A coinbase input: the zero digest as previous output, together with the
/// sentinel output index.
pub open spec fn spec_is_coinbase(t: TransactionView) -> bool {
    &&& t.inputs.len() == 1
    &&& t.inputs[0].previous_output == zero_digest()
    &&& t.inputs[0].output_index == COINBASE_OUTPUT_INDEX
}

impl Transaction {
    /// Build a coinbase transaction: the mining reward.  It has no real
    /// predecessor; the public-key field carries the little-endian block
    /// height, for information only.
    pub fn coinbase(recipient: Vec<u8>, amount: u64, block_height: u64) -> (r: Self)
        ensures
            r@.version == 1,
            r@.inputs.len() == 1,
            r@.inputs[0].previous_output == zero_digest(),
            r@.inputs[0].output_index == COINBASE_OUTPUT_INDEX,
            r@.inputs[0].signature == Seq::<u8>::empty(),
            r@.inputs[0].public_key == vstd::bytes::spec_u64_to_le_bytes(block_height),
            r@.outputs.len() == 1,
            r@.outputs[0].amount == amount,
            r@.outputs[0].recipient == recipient@,
            r@.locktime == 0,
            spec_is_coinbase(r@),
    {
        let mut inputs: Vec<TransactionInput> = Vec::new();
        inputs.push(
            TransactionInput {
                previous_output: Hash256::zero(),
                output_index: COINBASE_OUTPUT_INDEX,
                signature: Vec::new(),
                public_key: vstd::bytes::u64_to_le_bytes(block_height),
            },
        );
        let mut outputs: Vec<TransactionOutput> = Vec::new();
        outputs.push(TransactionOutput { amount, recipient });
        Transaction { version: 1, inputs, outputs, locktime: 0 }
    }

    /// Whether this transaction is a coinbase.
    pub fn is_coinbase(&self) -> (r: bool)
        ensures
            r == spec_is_coinbase(self@),
    {
        self.inputs.len() == 1 && self.inputs[0].previous_output == Hash256::zero()
            && self.inputs[0].output_index == COINBASE_OUTPUT_INDEX
    }
}

} // verus!
