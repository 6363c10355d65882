//! Plain-value models of the chain data the engine works on, plus the
//! query/event vocabulary spoken between the engine and its driver.

use vstd::prelude::*;

verus! {

/// A 256-bit transaction identifier, held as four 64-bit words.
#[derive(Clone, Copy, PartialEq, Eq, Structural, Hash, Debug)]
pub struct TxId {
    pub w0: u64,
    pub w1: u64,
    pub w2: u64,
    pub w3: u64,
}

/// A 256-bit block hash, held as four 64-bit words.
#[derive(Clone, Copy, PartialEq, Eq, Structural, Hash, Debug)]
pub struct BlockHash {
    pub w0: u64,
    pub w1: u64,
    pub w2: u64,
    pub w3: u64,
}

/// A reference to a transaction output: the funding transaction and the
/// index of the output within it.
#[derive(Clone, Copy, PartialEq, Eq, Structural, Hash, Debug)]
pub struct OutPoint {
    pub txid: TxId,
    pub index: u32,
}

/// An output registered for spend detection.  The outpoint identifies the
/// watch target; the script and the block hint are carried for consumers
/// and take no part in de-duplication, which goes by outpoint alone.
pub struct WatchedOutput {
    pub outpoint: OutPoint,
    pub script_pubkey: Vec<u8>,
    pub block_hash: Option<BlockHash>,
}

/// A block header, carried verbatim from the provider to consumers; the
/// engine itself reads none of its fields.
#[derive(Clone, Copy, PartialEq, Eq, Structural, Debug)]
pub struct BlockHeader {
    pub version: u32,
    pub prev_blockhash: BlockHash,
    pub merkle_root: BlockHash,
    pub time: u32,
    pub bits: u32,
    pub nonce: u32,
}

/// What a merkle-proof query reports about a confirmed transaction: the
/// height of the containing block and the transaction's position in it.
#[derive(Clone, Copy, PartialEq, Eq, Structural, Debug)]
pub struct MerkleProof {
    pub block_height: u32,
    pub pos: usize,
}

/// Whether a block is part of the best chain, and at which height.
#[derive(Clone, Copy, Debug)]
pub struct BlockStatus {
    pub in_best_chain: bool,
    pub height: Option<u32>,
}

/// Where a transaction was reported confirmed, as far as the provider knows.
#[derive(Clone, Copy, Debug)]
pub struct TxStatus {
    pub block_hash: Option<BlockHash>,
    pub block_height: Option<u32>,
}

/// What an output-status query reports: the transaction spending the
/// output, if any, and that transaction's confirmation status.
#[derive(Clone, Copy, Debug)]
pub struct OutputStatus {
    pub spending_txid: Option<TxId>,
    pub status: Option<TxStatus>,
}

/// A fully resolved confirmation: the transaction body together with the
/// header, height and in-block position of the confirming block.
pub struct ConfirmedTx {
    pub txid: TxId,
    pub tx: Vec<u8>,
    pub block_header: BlockHeader,
    pub block_height: u32,
    pub pos: usize,
}

/// A remote-provider query the driver must perform on the engine's behalf.
#[derive(Clone, Copy, PartialEq, Eq, Structural, Debug)]
pub enum Query {
    GetTipHash,
    GetHeaderByHash { block_hash: BlockHash },
    GetBlockStatus { block_hash: BlockHash },
    GetBlockHash { height: u32 },
    GetMerkleProof { txid: TxId },
    GetTx { txid: TxId },
    GetOutputStatus { outpoint: OutPoint },
}

/// The answer the driver hands back for the outstanding query, or the
/// relevant-transaction list gathered from the consumers, or a transport
/// failure with the provider's transient-versus-permanent classification.
#[allow(inconsistent_fields)]
pub enum Event {
    TipHash { block_hash: BlockHash },
    RelevantTxids { entries: Vec<(TxId, Option<BlockHash>)> },
    Header { header: BlockHeader },
    BlockStatus { status: BlockStatus },
    BlockHash { block_hash: BlockHash },
    MerkleProof { result: Option<MerkleProof> },
    Tx { tx: Option<Vec<u8>> },
    OutputStatus { status: Option<OutputStatus> },
    ProviderFailed { transient: bool },
}

/// A notification owed to every confirmable consumer, in the order emitted.
pub enum Notification {
    BestBlockUpdated { header: BlockHeader, height: u32 },
    TransactionConfirmed {
        header: BlockHeader,
        tx: Vec<u8>,
        txid: TxId,
        pos: usize,
        height: u32,
    },
    TransactionUnconfirmed { txid: TxId },
}

/// Why a synchronization pass ended without committing.
#[derive(Clone, Copy, PartialEq, Eq, Structural, Debug)]
pub enum SyncError {
    /// The remote provider failed; the flag carries its own
    /// transient-versus-permanent classification through to the caller.
    ProviderFailed { transient: bool },
    /// The driver answered with an event that does not fit the
    /// outstanding query.
    UnexpectedEvent,
    /// The engine was stepped while no pass was in progress.
    NotSyncing,
    /// A pass was started while another was still in progress.
    AlreadySyncing,
}

/// What the driver must do next.
#[derive(Clone, Copy, PartialEq, Eq, Structural, Debug)]
pub enum Action {
    /// Perform this provider query and report its result.
    Ask(Query),
    /// Gather the relevant-transaction list from every consumer and
    /// report the union.
    GetRelevantTxids,
    /// The pass committed and nothing is left to do.
    Finished,
    /// The pass aborted; the watch sets are untouched and the caller may
    /// retry later.
    Failed(SyncError),
}

/// One engine step: notifications owed to the consumers, then the next
/// thing the driver must do.
pub struct Outcome {
    pub notifications: Vec<Notification>,
    pub action: Action,
}

} // verus!
