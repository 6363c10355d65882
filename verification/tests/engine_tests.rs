use mutiny_chain::engine::MutinyChain;
use mutiny_chain::types::{
    Action, BlockHash, BlockHeader, BlockStatus, Event, MerkleProof, Notification, OutPoint,
    Outcome, OutputStatus, Query, SyncError, TxId, TxStatus, WatchedOutput,
};

fn txid(n: u64) -> TxId {
    TxId { w0: n, w1: 0, w2: 0, w3: 0 }
}

fn block_hash(n: u64) -> BlockHash {
    BlockHash { w0: n, w1: 0, w2: 0, w3: 0 }
}

fn header(n: u64) -> BlockHeader {
    BlockHeader {
        version: 2,
        prev_blockhash: block_hash(n),
        merkle_root: block_hash(1000 + n),
        time: 1_600_000_000,
        bits: 0x1d00ffff,
        nonce: n as u32,
    }
}

fn outpoint(n: u64, index: u32) -> OutPoint {
    OutPoint { txid: txid(n), index }
}

fn ask(out: &Outcome) -> Query {
    match out.action {
        Action::Ask(q) => q,
        other => panic!("expected a provider query, got {:?}", other),
    }
}

fn good_status(height: u32) -> BlockStatus {
    BlockStatus { in_best_chain: true, height: Some(height) }
}

/// Drive a pass from its start up to the first resolution query, with no
/// relevant transactions reported and the tip canonical at `height`.
fn open_pass(chain: &mut MutinyChain, tip: BlockHash, tip_header: BlockHeader, height: u32) -> Outcome {
    let out = chain.start_sync();
    assert_eq!(out.action, Action::Ask(Query::GetTipHash));
    let out = chain.step(Event::TipHash { block_hash: tip });
    assert_eq!(out.action, Action::GetRelevantTxids);
    let out = chain.step(Event::RelevantTxids { entries: vec![] });
    assert_eq!(out.action, Action::Ask(Query::GetHeaderByHash { block_hash: tip }));
    let out = chain.step(Event::Header { header: tip_header });
    assert_eq!(out.action, Action::Ask(Query::GetBlockStatus { block_hash: tip }));
    chain.step(Event::BlockStatus { status: good_status(height) })
}

#[test]
fn empty_pass_commits_the_tip_and_finishes() {
    let mut chain = MutinyChain::new();
    let out = open_pass(&mut chain, block_hash(1), header(1), 100);
    // Nothing watched: straight to the pre-commit tip check.
    assert_eq!(out.action, Action::Ask(Query::GetTipHash));
    assert_eq!(out.notifications.len(), 1);
    match &out.notifications[0] {
        Notification::BestBlockUpdated { height, .. } => assert_eq!(*height, 100),
        _ => panic!("expected a best-block notification"),
    }
    let out = chain.step(Event::TipHash { block_hash: block_hash(1) });
    assert_eq!(out.action, Action::Finished);
    assert!(out.notifications.is_empty());
    assert_eq!(chain.last_sync_hash, Some(block_hash(1)));
}

#[test]
fn unchanged_tip_with_no_registrations_is_a_no_op_pass() {
    let mut chain = MutinyChain::new();
    let out = open_pass(&mut chain, block_hash(1), header(1), 100);
    assert_eq!(out.action, Action::Ask(Query::GetTipHash));
    let out = chain.step(Event::TipHash { block_hash: block_hash(1) });
    assert_eq!(out.action, Action::Finished);

    // Same tip again: the loop sees nothing to do.
    let out = chain.start_sync();
    assert_eq!(out.action, Action::Ask(Query::GetTipHash));
    let out = chain.step(Event::TipHash { block_hash: block_hash(1) });
    assert_eq!(out.action, Action::Finished);
    assert!(out.notifications.is_empty());
}

#[test]
fn registered_transaction_confirms_on_a_later_pass() {
    let mut chain = MutinyChain::new();
    chain.register_transaction(txid(10));

    // First pass: the transaction is not yet confirmed.
    let out = open_pass(&mut chain, block_hash(1), header(1), 100);
    assert_eq!(out.action, Action::Ask(Query::GetMerkleProof { txid: txid(10) }));
    let out = chain.step(Event::MerkleProof { result: None });
    assert_eq!(out.action, Action::Ask(Query::GetTipHash));
    let out = chain.step(Event::TipHash { block_hash: block_hash(1) });
    assert_eq!(out.action, Action::Finished);
    assert!(chain.registry.watched_transactions.contains(&txid(10)));

    // The tip advances to a block containing the transaction at
    // position 2; the next pass must deliver exactly that confirmation.
    let out = open_pass(&mut chain, block_hash(2), header(2), 110);
    assert_eq!(out.action, Action::Ask(Query::GetMerkleProof { txid: txid(10) }));
    let out = chain.step(Event::MerkleProof {
        result: Some(MerkleProof { block_height: 110, pos: 2 }),
    });
    assert_eq!(out.action, Action::Ask(Query::GetBlockHash { height: 110 }));
    let out = chain.step(Event::BlockHash { block_hash: block_hash(2) });
    assert_eq!(out.action, Action::Ask(Query::GetHeaderByHash { block_hash: block_hash(2) }));
    let out = chain.step(Event::Header { header: header(2) });
    assert_eq!(out.action, Action::Ask(Query::GetTx { txid: txid(10) }));
    let out = chain.step(Event::Tx { tx: Some(vec![0xab, 0xcd]) });
    assert_eq!(out.action, Action::Ask(Query::GetTipHash));
    let out = chain.step(Event::TipHash { block_hash: block_hash(2) });
    assert_eq!(out.action, Action::Finished);
    assert_eq!(out.notifications.len(), 1);
    match &out.notifications[0] {
        Notification::TransactionConfirmed { txid: t, pos, height, tx, .. } => {
            assert_eq!(*t, txid(10));
            assert_eq!(*pos, 2);
            assert_eq!(*height, 110);
            assert_eq!(tx.clone(), vec![0xab, 0xcd]);
        },
        _ => panic!("expected a confirmation notification"),
    }
    // Confirmed: no longer watched.
    assert!(!chain.registry.watched_transactions.contains(&txid(10)));
}

#[test]
fn spent_output_reports_the_spender_and_leaves_the_watch_set() {
    let mut chain = MutinyChain::new();
    chain.register_output(WatchedOutput {
        outpoint: outpoint(20, 1),
        script_pubkey: vec![0x51],
        block_hash: None,
    });

    let out = open_pass(&mut chain, block_hash(1), header(1), 100);
    assert_eq!(out.action, Action::Ask(Query::GetOutputStatus { outpoint: outpoint(20, 1) }));
    let out = chain.step(Event::OutputStatus {
        status: Some(OutputStatus {
            spending_txid: Some(txid(30)),
            status: Some(TxStatus { block_hash: Some(block_hash(5)), block_height: Some(105) }),
        }),
    });
    assert_eq!(out.action, Action::Ask(Query::GetMerkleProof { txid: txid(30) }));
    let out = chain.step(Event::MerkleProof {
        result: Some(MerkleProof { block_height: 105, pos: 1 }),
    });
    assert_eq!(out.action, Action::Ask(Query::GetBlockHash { height: 105 }));
    // The resolved hash agrees with the reported one: no inconsistency.
    let out = chain.step(Event::BlockHash { block_hash: block_hash(5) });
    assert_eq!(out.action, Action::Ask(Query::GetHeaderByHash { block_hash: block_hash(5) }));
    let out = chain.step(Event::Header { header: header(5) });
    assert_eq!(out.action, Action::Ask(Query::GetTx { txid: txid(30) }));
    let out = chain.step(Event::Tx { tx: Some(vec![0x01]) });
    assert_eq!(out.action, Action::Ask(Query::GetTipHash));
    let out = chain.step(Event::TipHash { block_hash: block_hash(1) });
    assert_eq!(out.action, Action::Finished);
    assert_eq!(out.notifications.len(), 1);
    match &out.notifications[0] {
        Notification::TransactionConfirmed { txid: t, height, .. } => {
            assert_eq!(*t, txid(30));
            assert_eq!(*height, 105);
        },
        _ => panic!("expected the spender's confirmation"),
    }
    assert!(chain.registry.watched_outputs.is_empty());
}

#[test]
fn reorged_out_transaction_is_unconfirmed_and_watched_again() {
    let mut chain = MutinyChain::new();
    let out = chain.start_sync();
    assert_eq!(out.action, Action::Ask(Query::GetTipHash));
    let out = chain.step(Event::TipHash { block_hash: block_hash(2) });
    assert_eq!(out.action, Action::GetRelevantTxids);
    // A consumer still considers this transaction confirmed in a block
    // the provider no longer has in the best chain.
    let out = chain.step(Event::RelevantTxids {
        entries: vec![(txid(40), Some(block_hash(9)))],
    });
    assert_eq!(out.action, Action::Ask(Query::GetBlockStatus { block_hash: block_hash(9) }));
    let out = chain.step(Event::BlockStatus {
        status: BlockStatus { in_best_chain: false, height: None },
    });
    assert_eq!(out.notifications.len(), 1);
    match &out.notifications[0] {
        Notification::TransactionUnconfirmed { txid: t } => assert_eq!(*t, txid(40)),
        _ => panic!("expected an unconfirmed notification"),
    }
    assert!(chain.registry.watched_transactions.contains(&txid(40)));
}

#[test]
fn still_canonical_block_is_skipped_by_the_sweep() {
    let mut chain = MutinyChain::new();
    let out = chain.start_sync();
    assert_eq!(out.action, Action::Ask(Query::GetTipHash));
    let out = chain.step(Event::TipHash { block_hash: block_hash(2) });
    assert_eq!(out.action, Action::GetRelevantTxids);
    let out = chain.step(Event::RelevantTxids {
        entries: vec![(txid(41), Some(block_hash(8)))],
    });
    assert_eq!(out.action, Action::Ask(Query::GetBlockStatus { block_hash: block_hash(8) }));
    let out = chain.step(Event::BlockStatus { status: good_status(90) });
    assert!(out.notifications.is_empty());
    assert!(!chain.registry.watched_transactions.contains(&txid(41)));
}

#[test]
fn duplicate_relevant_entries_notify_once() {
    let mut chain = MutinyChain::new();
    chain.start_sync();
    let out = chain.step(Event::TipHash { block_hash: block_hash(2) });
    assert_eq!(out.action, Action::GetRelevantTxids);
    // Two consumers both report the same transaction with no block hint:
    // it is unconfirmed once, not twice.
    let out = chain.step(Event::RelevantTxids {
        entries: vec![(txid(50), None), (txid(50), None)],
    });
    let unconfirmed = out
        .notifications
        .iter()
        .filter(|n| matches!(n, Notification::TransactionUnconfirmed { .. }))
        .count();
    assert_eq!(unconfirmed, 1);
    assert!(chain.registry.watched_transactions.contains(&txid(50)));
}

#[test]
fn confirmations_are_delivered_in_chain_order() {
    let mut chain = MutinyChain::new();
    // Both watched; the engine happens to resolve txid 61 first, and it
    // confirms higher in the chain (200, 5) than txid 60 does (150, 1):
    // the commit must still deliver the lower block first.
    chain.register_transaction(txid(60));
    chain.register_transaction(txid(61));

    let out = open_pass(&mut chain, block_hash(1), header(1), 210);
    let first = match ask(&out) {
        Query::GetMerkleProof { txid } => txid,
        other => panic!("expected a merkle-proof query, got {:?}", other),
    };
    let second = if first == txid(60) { txid(61) } else { txid(60) };
    // Whichever id is resolved first confirms at (200, 5); the other at
    // (150, 1).
    let out = chain.step(Event::MerkleProof {
        result: Some(MerkleProof { block_height: 200, pos: 5 }),
    });
    assert_eq!(out.action, Action::Ask(Query::GetBlockHash { height: 200 }));
    let out = chain.step(Event::BlockHash { block_hash: block_hash(200) });
    let out = chain.step(Event::Header { header: header(200) });
    assert_eq!(out.action, Action::Ask(Query::GetTx { txid: first }));
    let out = chain.step(Event::Tx { tx: Some(vec![1]) });
    assert_eq!(out.action, Action::Ask(Query::GetMerkleProof { txid: second }));
    let out = chain.step(Event::MerkleProof {
        result: Some(MerkleProof { block_height: 150, pos: 1 }),
    });
    let out = chain.step(Event::BlockHash { block_hash: block_hash(150) });
    let out = chain.step(Event::Header { header: header(150) });
    let out = chain.step(Event::Tx { tx: Some(vec![2]) });
    assert_eq!(out.action, Action::Ask(Query::GetTipHash));
    let out = chain.step(Event::TipHash { block_hash: block_hash(1) });
    assert_eq!(out.action, Action::Finished);
    assert_eq!(out.notifications.len(), 2);
    match (&out.notifications[0], &out.notifications[1]) {
        (
            Notification::TransactionConfirmed { txid: t0, height: h0, pos: p0, .. },
            Notification::TransactionConfirmed { txid: t1, height: h1, pos: p1, .. },
        ) => {
            assert_eq!(*t0, second);
            assert_eq!(*h0, 150);
            assert_eq!(*p0, 1);
            assert_eq!(*t1, first);
            assert_eq!(*h1, 200);
            assert_eq!(*p1, 5);
        },
        _ => panic!("expected two confirmation notifications"),
    }
    assert!(chain.registry.watched_transactions.is_empty());
}

#[test]
fn tip_moving_before_commit_discards_the_whole_batch() {
    let mut chain = MutinyChain::new();
    chain.register_transaction(txid(70));

    let out = open_pass(&mut chain, block_hash(1), header(1), 100);
    assert_eq!(out.action, Action::Ask(Query::GetMerkleProof { txid: txid(70) }));
    let out = chain.step(Event::MerkleProof {
        result: Some(MerkleProof { block_height: 90, pos: 0 }),
    });
    let out = chain.step(Event::BlockHash { block_hash: block_hash(90) });
    let out = chain.step(Event::Header { header: header(90) });
    let out = chain.step(Event::Tx { tx: Some(vec![70]) });
    assert_eq!(out.action, Action::Ask(Query::GetTipHash));

    // The tip moved while the batch was being resolved: nothing from the
    // batch may be committed, and the pass restarts against the new tip.
    let out = chain.step(Event::TipHash { block_hash: block_hash(3) });
    assert!(out.notifications.is_empty());
    assert_eq!(out.action, Action::GetRelevantTxids);
    assert!(chain.registry.watched_transactions.contains(&txid(70)));
    assert_eq!(chain.last_sync_hash, None);
}

#[test]
fn non_canonical_tip_restarts_the_pass() {
    let mut chain = MutinyChain::new();
    chain.start_sync();
    let out = chain.step(Event::TipHash { block_hash: block_hash(4) });
    assert_eq!(out.action, Action::GetRelevantTxids);
    let out = chain.step(Event::RelevantTxids { entries: vec![] });
    let out = chain.step(Event::Header { header: header(4) });
    assert_eq!(out.action, Action::Ask(Query::GetBlockStatus { block_hash: block_hash(4) }));
    // The tip is no longer canonical: an inconsistency, so the pass
    // restarts from the top rather than failing.
    let out = chain.step(Event::BlockStatus {
        status: BlockStatus { in_best_chain: false, height: None },
    });
    assert!(out.notifications.is_empty());
    assert_eq!(out.action, Action::GetRelevantTxids);
}

#[test]
fn provider_failure_aborts_without_touching_the_watch_sets() {
    let mut chain = MutinyChain::new();
    chain.register_transaction(txid(80));
    let out = open_pass(&mut chain, block_hash(1), header(1), 100);
    assert_eq!(out.action, Action::Ask(Query::GetMerkleProof { txid: txid(80) }));
    let out = chain.step(Event::ProviderFailed { transient: false });
    assert_eq!(
        out.action,
        Action::Failed(SyncError::ProviderFailed { transient: false })
    );
    assert!(out.notifications.is_empty());
    // Nothing was lost: the transaction is still watched and a new pass
    // can start.
    assert!(chain.registry.watched_transactions.contains(&txid(80)));
    assert_eq!(chain.last_sync_hash, None);
    let out = chain.start_sync();
    assert_eq!(out.action, Action::Ask(Query::GetTipHash));
}

#[test]
fn only_one_pass_runs_at_a_time() {
    let mut chain = MutinyChain::new();
    let out = chain.start_sync();
    assert_eq!(out.action, Action::Ask(Query::GetTipHash));
    let out = chain.start_sync();
    assert_eq!(out.action, Action::Failed(SyncError::AlreadySyncing));
}

#[test]
fn stepping_an_idle_engine_fails() {
    let mut chain = MutinyChain::new();
    let out = chain.step(Event::TipHash { block_hash: block_hash(1) });
    assert_eq!(out.action, Action::Failed(SyncError::NotSyncing));
}

#[test]
fn mismatched_event_aborts_the_pass() {
    let mut chain = MutinyChain::new();
    let out = chain.start_sync();
    assert_eq!(out.action, Action::Ask(Query::GetTipHash));
    let out = chain.step(Event::Header { header: header(1) });
    assert_eq!(out.action, Action::Failed(SyncError::UnexpectedEvent));
}

#[test]
fn registration_mid_pass_is_resolved_by_the_same_sync_call() {
    let mut chain = MutinyChain::new();
    let out = open_pass(&mut chain, block_hash(1), header(1), 100);
    assert_eq!(out.action, Action::Ask(Query::GetTipHash));
    // A registration arrives between resolution and the tip check.
    chain.register_transaction(txid(90));
    let out = chain.step(Event::TipHash { block_hash: block_hash(1) });
    // The commit went through, and the loop turns again for the fresh
    // registration instead of finishing.
    assert_eq!(out.action, Action::Ask(Query::GetMerkleProof { txid: txid(90) }));
    let out = chain.step(Event::MerkleProof { result: None });
    assert_eq!(out.action, Action::Ask(Query::GetTipHash));
    let out = chain.step(Event::TipHash { block_hash: block_hash(1) });
    assert_eq!(out.action, Action::Finished);
}

#[test]
fn sweep_checks_every_hinted_entry() {
    let mut chain = MutinyChain::new();
    chain.start_sync();
    let out = chain.step(Event::TipHash { block_hash: block_hash(6) });
    assert_eq!(out.action, Action::GetRelevantTxids);
    let out = chain.step(Event::RelevantTxids {
        entries: vec![(txid(1), Some(block_hash(11))), (txid(2), Some(block_hash(12)))],
    });
    // One status query per distinct hint, in some order; the first
    // answer is canonical, the second is not.
    let first_hash = match ask(&out) {
        Query::GetBlockStatus { block_hash } => block_hash,
        other => panic!("expected a block-status query, got {:?}", other),
    };
    let out = chain.step(Event::BlockStatus { status: good_status(90) });
    let second_hash = match ask(&out) {
        Query::GetBlockStatus { block_hash } => block_hash,
        other => panic!("expected a block-status query, got {:?}", other),
    };
    assert_ne!(first_hash, second_hash);
    let out = chain.step(Event::BlockStatus {
        status: BlockStatus { in_best_chain: false, height: None },
    });
    // Exactly the reorged-out one is unconfirmed and watched again.
    assert_eq!(out.notifications.len(), 1);
    let reorged = if second_hash == block_hash(11) { txid(1) } else { txid(2) };
    match &out.notifications[0] {
        Notification::TransactionUnconfirmed { txid: t } => assert_eq!(*t, reorged),
        _ => panic!("expected an unconfirmed notification"),
    }
    assert_eq!(out.action, Action::Ask(Query::GetHeaderByHash { block_hash: block_hash(6) }));
    assert_eq!(chain.registry.watched_transactions.len(), 1);
}

#[test]
fn transient_provider_failures_keep_their_classification() {
    let mut chain = MutinyChain::new();
    chain.start_sync();
    let out = chain.step(Event::ProviderFailed { transient: true });
    assert_eq!(
        out.action,
        Action::Failed(SyncError::ProviderFailed { transient: true })
    );
}

#[test]
fn output_registered_mid_pass_is_checked_by_the_next_turn() {
    let mut chain = MutinyChain::new();
    let out = open_pass(&mut chain, block_hash(1), header(1), 100);
    assert_eq!(out.action, Action::Ask(Query::GetTipHash));
    chain.register_output(WatchedOutput {
        outpoint: outpoint(33, 0),
        script_pubkey: vec![],
        block_hash: None,
    });
    // Commit goes through, then the loop turns again and picks the
    // freshly drained output up.
    let out = chain.step(Event::TipHash { block_hash: block_hash(1) });
    assert_eq!(out.action, Action::Ask(Query::GetOutputStatus { outpoint: outpoint(33, 0) }));
    let out = chain.step(Event::OutputStatus { status: None });
    assert_eq!(out.action, Action::Ask(Query::GetTipHash));
    let out = chain.step(Event::TipHash { block_hash: block_hash(1) });
    assert_eq!(out.action, Action::Finished);
    // Unspent: the output stays watched for later passes.
    assert_eq!(chain.registry.watched_outputs.len(), 1);
}
