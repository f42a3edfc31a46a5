//! The decoded records and their mathematical models. Every executable type
//! views to a model over `Seq`, and the decoders' contracts speak of the
//! models.
use vstd::prelude::*;

verus! {

/// Model of a decoded transaction input.
pub struct InputModel {
    /// Previous-transaction hash, byte-reversed from wire order into display
    /// order.
    pub prev_tx_hash: Seq<u8>,
    /// Which output of that transaction is referenced.
    pub out_index: u32,
    /// The unlocking script, opaque bytes.
    pub script: Seq<u8>,
    /// Sequence number.
    pub sequence: u32,
}

/// Model of a decoded transaction output.
pub struct OutputModel {
    /// Value in the ledger's smallest unit.
    pub value: u64,
    /// The locking script, opaque bytes.
    pub script: Seq<u8>,
}

/// Model of a decoded transaction.
pub struct TxModel {
    pub version: u32,
    pub inputs: Seq<InputModel>,
    pub outputs: Seq<OutputModel>,
    pub lock_time: u32,
}

/// Model of a decoded block header.
pub struct HeaderModel {
    /// The magic sentinel; always [`crate::MAGIC`] in a decoded header.
    pub magic: u32,
    /// Declared block size, excluding the magic and this size field itself.
    pub size: u32,
    pub version: u32,
    /// Previous-block hash in display order (byte-reversed from wire order).
    pub prev_hash: Seq<u8>,
    /// Merkle root in display order (byte-reversed from wire order).
    pub merkle_root: Seq<u8>,
    /// Seconds since the epoch.
    pub timestamp: u32,
    /// Difficulty bits.
    pub bits: u32,
    pub nonce: u32,
}

/// Model of a decoded block.
pub struct BlockModel {
    pub header: HeaderModel,
    pub transactions: Seq<TxModel>,
}

/// A decoded transaction input.
#[derive(Debug, Clone, PartialEq, Eq)]
pub struct TxInput {
    /// Previous-transaction hash in display order (byte-reversed from wire
    /// order).
    pub prev_tx_hash: Vec<u8>,
    /// Which output of that transaction is referenced.
    pub out_index: u32,
    /// The unlocking script, opaque bytes, not interpreted.
    pub script: Vec<u8>,
    /// Sequence number.
    pub sequence: u32,
}

impl View for TxInput {
    type V = InputModel;

    open spec fn view(&self) -> InputModel {
        InputModel {
            prev_tx_hash: self.prev_tx_hash@,
            out_index: self.out_index,
            script: self.script@,
            sequence: self.sequence,
        }
    }
}

/// A decoded transaction output.
#[derive(Debug, Clone, PartialEq, Eq)]
pub struct TxOutput {
    /// Value in the ledger's smallest unit.
    pub value: u64,
    /// The locking script, opaque bytes, not interpreted.
    pub script: Vec<u8>,
}

impl View for TxOutput {
    type V = OutputModel;

    open spec fn view(&self) -> OutputModel {
        OutputModel { value: self.value, script: self.script@ }
    }
}

/// A decoded transaction. The format reserves a witness flag after the
/// version; this decoder does not read it, so witness-formatted bodies are
/// not interpreted.
#[derive(Debug, Clone, PartialEq, Eq)]
pub struct Transaction {
    pub version: u32,
    pub inputs: Vec<TxInput>,
    pub outputs: Vec<TxOutput>,
    /// Earliest valid inclusion time or height; surfaced, not enforced.
    pub lock_time: u32,
}

impl View for Transaction {
    type V = TxModel;

    open spec fn view(&self) -> TxModel {
        TxModel {
            version: self.version,
            inputs: self.inputs@.map_values(|i: TxInput| i@),
            outputs: self.outputs@.map_values(|o: TxOutput| o@),
            lock_time: self.lock_time,
        }
    }
}

/// A decoded block header.
#[derive(Debug, Clone, PartialEq, Eq)]
pub struct BlockHeader {
    /// The magic sentinel; always [`crate::MAGIC`] in a decoded header.
    pub magic: u32,
    /// Declared block size, excluding the magic and this size field itself.
    pub size: u32,
    pub version: u32,
    /// Previous-block hash in display order (byte-reversed from wire order).
    pub prev_hash: Vec<u8>,
    /// Merkle root in display order (byte-reversed from wire order).
    pub merkle_root: Vec<u8>,
    /// Seconds since the epoch.
    pub timestamp: u32,
    /// Difficulty bits.
    pub bits: u32,
    pub nonce: u32,
}

impl View for BlockHeader {
    type V = HeaderModel;

    open spec fn view(&self) -> HeaderModel {
        HeaderModel {
            magic: self.magic,
            size: self.size,
            version: self.version,
            prev_hash: self.prev_hash@,
            merkle_root: self.merkle_root@,
            timestamp: self.timestamp,
            bits: self.bits,
            nonce: self.nonce,
        }
    }
}

/// A decoded block: its header and its transactions in stream order.
#[derive(Debug, Clone, PartialEq, Eq)]
pub struct Block {
    pub header: BlockHeader,
    pub transactions: Vec<Transaction>,
}

impl View for Block {
    type V = BlockModel;

    open spec fn view(&self) -> BlockModel {
        BlockModel {
            header: self.header@,
            transactions: self.transactions@.map_values(|t: Transaction| t@),
        }
    }
}

} // verus!
