use mutiny_chain::resolve::{resolve_step, ResolveOutcome, ResolveTask};
use mutiny_chain::types::{BlockHash, BlockHeader, Event, MerkleProof, Query, TxId};

fn txid(n: u64) -> TxId {
    TxId { w0: n, w1: 0, w2: 0, w3: 0 }
}

fn block_hash(n: u64) -> BlockHash {
    BlockHash { w0: n, w1: 0, w2: 0, w3: 0 }
}

fn header(n: u64) -> BlockHeader {
    BlockHeader {
        version: 2,
        prev_blockhash: block_hash(n),
        merkle_root: block_hash(1000 + n),
        time: 1_600_000_000,
        bits: 0x1d00ffff,
        nonce: n as u32,
    }
}

#[test]
fn missing_merkle_proof_means_not_confirmed() {
    let (task, query) = ResolveTask::begin(txid(1), None, None);
    assert_eq!(query, Query::GetMerkleProof { txid: txid(1) });
    let out = resolve_step(task, Event::MerkleProof { result: None });
    assert!(matches!(out, ResolveOutcome::NotConfirmed));
}

#[test]
fn full_lookup_confirms_with_proof_height() {
    let (task, _) = ResolveTask::begin(txid(1), None, None);
    let out = resolve_step(
        task,
        Event::MerkleProof { result: Some(MerkleProof { block_height: 120, pos: 2 }) },
    );
    let (task, query) = match out {
        ResolveOutcome::Advance { task, query } => (task, query),
        _ => panic!("expected the lookup to advance"),
    };
    assert_eq!(query, Query::GetBlockHash { height: 120 });
    let out = resolve_step(task, Event::BlockHash { block_hash: block_hash(9) });
    let (task, query) = match out {
        ResolveOutcome::Advance { task, query } => (task, query),
        _ => panic!("expected the lookup to advance"),
    };
    assert_eq!(query, Query::GetHeaderByHash { block_hash: block_hash(9) });
    let out = resolve_step(task, Event::Header { header: header(9) });
    let (task, query) = match out {
        ResolveOutcome::Advance { task, query } => (task, query),
        _ => panic!("expected the lookup to advance"),
    };
    assert_eq!(query, Query::GetTx { txid: txid(1) });
    let out = resolve_step(task, Event::Tx { tx: Some(vec![1, 2, 3]) });
    match out {
        ResolveOutcome::Confirmed { record } => {
            assert_eq!(record.txid, txid(1));
            assert_eq!(record.block_height, 120);
            assert_eq!(record.pos, 2);
            assert_eq!(record.tx, vec![1, 2, 3]);
            assert_eq!(record.block_header, header(9));
        },
        _ => panic!("expected a confirmation"),
    }
}

#[test]
fn expected_hash_mismatch_is_inconsistent_not_unconfirmed() {
    let (task, _) = ResolveTask::begin(txid(1), Some(block_hash(7)), None);
    let out = resolve_step(
        task,
        Event::MerkleProof { result: Some(MerkleProof { block_height: 50, pos: 0 }) },
    );
    let task = match out {
        ResolveOutcome::Advance { task, .. } => task,
        _ => panic!("expected the lookup to advance"),
    };
    // The chain resolves a different hash at that height: a reorg or a
    // race, never a plain "not confirmed".
    let out = resolve_step(task, Event::BlockHash { block_hash: block_hash(8) });
    assert!(matches!(out, ResolveOutcome::Inconsistent));
}

#[test]
fn matching_expected_hash_continues() {
    let (task, _) = ResolveTask::begin(txid(1), Some(block_hash(7)), None);
    let out = resolve_step(
        task,
        Event::MerkleProof { result: Some(MerkleProof { block_height: 50, pos: 0 }) },
    );
    let task = match out {
        ResolveOutcome::Advance { task, .. } => task,
        _ => panic!("expected the lookup to advance"),
    };
    let out = resolve_step(task, Event::BlockHash { block_hash: block_hash(7) });
    assert!(matches!(out, ResolveOutcome::Advance { .. }));
}

#[test]
fn known_height_mismatch_is_inconsistent() {
    let (task, _) = ResolveTask::begin(txid(1), None, Some(60));
    let out = resolve_step(
        task,
        Event::MerkleProof { result: Some(MerkleProof { block_height: 61, pos: 1 }) },
    );
    let task = match out {
        ResolveOutcome::Advance { task, .. } => task,
        _ => panic!("expected the lookup to advance"),
    };
    let out = resolve_step(task, Event::BlockHash { block_hash: block_hash(3) });
    let task = match out {
        ResolveOutcome::Advance { task, .. } => task,
        _ => panic!("expected the lookup to advance"),
    };
    let out = resolve_step(task, Event::Header { header: header(3) });
    let task = match out {
        ResolveOutcome::Advance { task, .. } => task,
        _ => panic!("expected the lookup to advance"),
    };
    let out = resolve_step(task, Event::Tx { tx: Some(vec![9]) });
    assert!(matches!(out, ResolveOutcome::Inconsistent));
}

#[test]
fn consistent_known_height_is_used_in_the_record() {
    let (task, _) = ResolveTask::begin(txid(4), None, Some(80));
    let out = resolve_step(
        task,
        Event::MerkleProof { result: Some(MerkleProof { block_height: 80, pos: 5 }) },
    );
    let task = match out {
        ResolveOutcome::Advance { task, .. } => task,
        _ => panic!("expected the lookup to advance"),
    };
    let out = resolve_step(task, Event::BlockHash { block_hash: block_hash(2) });
    let task = match out {
        ResolveOutcome::Advance { task, .. } => task,
        _ => panic!("expected the lookup to advance"),
    };
    let out = resolve_step(task, Event::Header { header: header(2) });
    let task = match out {
        ResolveOutcome::Advance { task, .. } => task,
        _ => panic!("expected the lookup to advance"),
    };
    let out = resolve_step(task, Event::Tx { tx: Some(vec![4]) });
    match out {
        ResolveOutcome::Confirmed { record } => {
            assert_eq!(record.block_height, 80);
            assert_eq!(record.pos, 5);
        },
        _ => panic!("expected a confirmation"),
    }
}

#[test]
fn missing_body_means_not_confirmed() {
    let (task, _) = ResolveTask::begin(txid(1), None, None);
    let out = resolve_step(
        task,
        Event::MerkleProof { result: Some(MerkleProof { block_height: 10, pos: 0 }) },
    );
    let task = match out {
        ResolveOutcome::Advance { task, .. } => task,
        _ => panic!("expected the lookup to advance"),
    };
    let out = resolve_step(task, Event::BlockHash { block_hash: block_hash(1) });
    let task = match out {
        ResolveOutcome::Advance { task, .. } => task,
        _ => panic!("expected the lookup to advance"),
    };
    let out = resolve_step(task, Event::Header { header: header(1) });
    let task = match out {
        ResolveOutcome::Advance { task, .. } => task,
        _ => panic!("expected the lookup to advance"),
    };
    let out = resolve_step(task, Event::Tx { tx: None });
    assert!(matches!(out, ResolveOutcome::NotConfirmed));
}

#[test]
fn event_answering_the_wrong_query_is_unexpected() {
    let (task, _) = ResolveTask::begin(txid(1), None, None);
    let out = resolve_step(task, Event::Header { header: header(1) });
    assert!(matches!(out, ResolveOutcome::Unexpected));
}
