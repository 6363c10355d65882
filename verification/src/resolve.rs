//! The confirmation resolver: a four-stage lookup that turns a
//! transaction id into a fully resolved confirmation record, or reports
//! that the transaction is unconfirmed, or flags an inconsistency when a
//! cross-check against the caller's expectations fails.
//!
//! The stages follow the provider queries one by one: merkle proof, block
//! hash at the proof's height, header for that hash, transaction body.
//! Each answer is handed in as an [`Event`] and either produces the next
//! query or ends the lookup.

use vstd::prelude::*;

use crate::types::{BlockHash, BlockHeader, ConfirmedTx, Event, Query, TxId};

verus! {

/// Which provider answer the lookup is waiting for.
#[derive(Clone, Copy)]
pub enum ResolveStage {
    /// Waiting for the merkle proof of the transaction.
    AwaitProof,
    /// Waiting for the hash of the block at the proof's height.
    AwaitBlockHash { height: u32, pos: usize },
    /// Waiting for the header of the resolved block.
    AwaitHeader { block_hash: BlockHash, height: u32, pos: usize },
    /// Waiting for the transaction body.
    AwaitBody { header: BlockHeader, height: u32, pos: usize },
}

/// One in-flight confirmation lookup.  `expected_block_hash` and
/// `known_height` carry what the caller already believes about the
/// confirming block; a disagreement with what the provider reports is an
/// inconsistency, never a missing confirmation.
#[derive(Clone, Copy)]
pub struct ResolveTask {
    pub txid: TxId,
    pub expected_block_hash: Option<BlockHash>,
    pub known_height: Option<u32>,
    pub stage: ResolveStage,
}

/// How one resolver step ended.
pub enum ResolveOutcome {
    /// The lookup goes on: perform `query` and hand the answer to the
    /// updated task.
    Advance { task: ResolveTask, query: Query },
    /// The transaction is confirmed as described by the record.
    Confirmed { record: ConfirmedTx },
    /// The transaction is not (or no longer) confirmed.
    NotConfirmed,
    /// A cross-check against the caller's expectations failed; the whole
    /// pass must restart.
    Inconsistent,
    /// The event does not answer the query the lookup is waiting for.
    Unexpected,
}

impl ResolveTask {
    /// A fresh lookup for `txid`, together with the first query to run.
    pub fn begin(txid: TxId, expected_block_hash: Option<BlockHash>, known_height: Option<u32>)
        -> (r: (ResolveTask, Query))
        ensures
            r.0 == (ResolveTask {
                txid,
                expected_block_hash,
                known_height,
                stage: ResolveStage::AwaitProof,
            }),
            r.1 == (Query::GetMerkleProof { txid }),
    {
        (
            ResolveTask { txid, expected_block_hash, known_height, stage: ResolveStage::AwaitProof },
            Query::GetMerkleProof { txid },
        )
    }
}

/// What one resolver step does with the answer to its outstanding query.
///
/// Stage by stage: a missing merkle proof means not confirmed; a resolved
/// block hash differing from `expected_block_hash` is an inconsistency; a
/// missing body means not confirmed; a reported height differing from
/// `known_height` is an inconsistency; otherwise the record is assembled
/// with the height taken from `known_height` when one was supplied (it
/// matches the proof's at that point) and from the proof otherwise.  Any
/// event that does not answer the outstanding query is `Unexpected`.
pub open spec fn resolve_step_spec(task: ResolveTask, event: Event) -> ResolveOutcome {
    match task.stage {
        ResolveStage::AwaitProof => match event {
            Event::MerkleProof { result } => match result {
                Some(p) => (ResolveOutcome::Advance {
                    task: ResolveTask {
                        txid: task.txid,
                        expected_block_hash: task.expected_block_hash,
                        known_height: task.known_height,
                        stage: ResolveStage::AwaitBlockHash {
                            height: p.block_height,
                            pos: p.pos,
                        },
                    },
                    query: Query::GetBlockHash { height: p.block_height },
                }),
                None => ResolveOutcome::NotConfirmed,
            },
            _ => ResolveOutcome::Unexpected,
        },
        ResolveStage::AwaitBlockHash { height, pos } => match event {
            Event::BlockHash { block_hash } => match task.expected_block_hash {
                Some(expected) => if expected != block_hash {
                    ResolveOutcome::Inconsistent
                } else {
                    resolve_hash_accepted(task, block_hash, height, pos)
                },
                None => resolve_hash_accepted(task, block_hash, height, pos),
            },
            _ => ResolveOutcome::Unexpected,
        },
        ResolveStage::AwaitHeader { block_hash, height, pos } => match event {
            Event::Header { header } => (ResolveOutcome::Advance {
                task: ResolveTask {
                    txid: task.txid,
                    expected_block_hash: task.expected_block_hash,
                    known_height: task.known_height,
                    stage: ResolveStage::AwaitBody { header, height, pos },
                },
                query: Query::GetTx { txid: task.txid },
            }),
            _ => ResolveOutcome::Unexpected,
        },
        ResolveStage::AwaitBody { header, height, pos } => match event {
            Event::Tx { tx } => match tx {
                Some(body) => match task.known_height {
                    Some(known) => if known != height {
                        ResolveOutcome::Inconsistent
                    } else {
                        (ResolveOutcome::Confirmed {
                            record: ConfirmedTx {
                                txid: task.txid,
                                tx: body,
                                block_header: header,
                                block_height: known,
                                pos,
                            },
                        })
                    },
                    None => (ResolveOutcome::Confirmed {
                        record: ConfirmedTx {
                            txid: task.txid,
                            tx: body,
                            block_header: header,
                            block_height: height,
                            pos,
                        },
                    }),
                },
                None => ResolveOutcome::NotConfirmed,
            },
            _ => ResolveOutcome::Unexpected,
        },
    }
}

/// The continuation once the resolved block hash passed the expectation
/// cross-check: fetch that block's header next.
pub open spec fn resolve_hash_accepted(
    task: ResolveTask,
    block_hash: BlockHash,
    height: u32,
    pos: usize,
) -> ResolveOutcome {
    (ResolveOutcome::Advance {
        task: ResolveTask {
            txid: task.txid,
            expected_block_hash: task.expected_block_hash,
            known_height: task.known_height,
            stage: ResolveStage::AwaitHeader { block_hash, height, pos },
        },
        query: Query::GetHeaderByHash { block_hash },
    })
}

/// Feed the answer for the task's outstanding query into the lookup.
pub fn resolve_step(task: ResolveTask, event: Event) -> (out: ResolveOutcome)
    ensures
        out == resolve_step_spec(task, event),
        // An expectation mismatch is an inconsistency, never `NotConfirmed`.
        ({
            &&& task.stage is AwaitBlockHash
            &&& event matches Event::BlockHash { block_hash }
            &&& task.expected_block_hash matches Some(expected)
            &&& expected != block_hash
        }) ==> (out is Inconsistent),
        // A missing merkle proof means the transaction is simply unconfirmed.
        ((task.stage is AwaitProof) && (event matches Event::MerkleProof { result: None })) ==> (out
            is NotConfirmed),
{
    match task.stage {
        ResolveStage::AwaitProof => match event {
            Event::MerkleProof { result } => match result {
                Some(p) => ResolveOutcome::Advance {
                    task: ResolveTask {
                        txid: task.txid,
                        expected_block_hash: task.expected_block_hash,
                        known_height: task.known_height,
                        stage: ResolveStage::AwaitBlockHash {
                            height: p.block_height,
                            pos: p.pos,
                        },
                    },
                    query: Query::GetBlockHash { height: p.block_height },
                },
                None => ResolveOutcome::NotConfirmed,
            },
            _ => ResolveOutcome::Unexpected,
        },
        ResolveStage::AwaitBlockHash { height, pos } => match event {
            Event::BlockHash { block_hash } => {
                let mismatch: bool = match task.expected_block_hash {
                    Some(expected) => expected != block_hash,
                    None => false,
                };
                if mismatch {
                    ResolveOutcome::Inconsistent
                } else {
                    ResolveOutcome::Advance {
                        task: ResolveTask {
                            txid: task.txid,
                            expected_block_hash: task.expected_block_hash,
                            known_height: task.known_height,
                            stage: ResolveStage::AwaitHeader { block_hash, height, pos },
                        },
                        query: Query::GetHeaderByHash { block_hash },
                    }
                }
            },
            _ => ResolveOutcome::Unexpected,
        },
        ResolveStage::AwaitHeader { block_hash, height, pos } => match event {
            Event::Header { header } => ResolveOutcome::Advance {
                task: ResolveTask {
                    txid: task.txid,
                    expected_block_hash: task.expected_block_hash,
                    known_height: task.known_height,
                    stage: ResolveStage::AwaitBody { header, height, pos },
                },
                query: Query::GetTx { txid: task.txid },
            },
            _ => ResolveOutcome::Unexpected,
        },
        ResolveStage::AwaitBody { header, height, pos } => match event {
            Event::Tx { tx } => match tx {
                Some(body) => {
                    let mismatch: bool = match task.known_height {
                        Some(known) => known != height,
                        None => false,
                    };
                    if mismatch {
                        ResolveOutcome::Inconsistent
                    } else {
                        let block_height: u32 = match task.known_height {
                            Some(known) => known,
                            None => height,
                        };
                        ResolveOutcome::Confirmed {
                            record: ConfirmedTx {
                                txid: task.txid,
                                tx: body,
                                block_header: header,
                                block_height,
                                pos,
                            },
                        }
                    }
                },
                None => ResolveOutcome::NotConfirmed,
            },
            _ => ResolveOutcome::Unexpected,
        },
    }
}

} // verus!
