use mutiny_chain::registry::WatchRegistry;
use mutiny_chain::types::{BlockHash, OutPoint, TxId, WatchedOutput};

fn txid(n: u64) -> TxId {
    TxId { w0: n, w1: 0, w2: 0, w3: 0 }
}

fn outpoint(n: u64, index: u32) -> OutPoint {
    OutPoint { txid: txid(n), index }
}

fn watched_output(n: u64, index: u32, script: Vec<u8>) -> WatchedOutput {
    WatchedOutput { outpoint: outpoint(n, index), script_pubkey: script, block_hash: None::<BlockHash> }
}

#[test]
fn drain_moves_registrations_into_watched_set() {
    let mut reg = WatchRegistry::new();
    reg.register_transaction(txid(1));
    reg.register_transaction(txid(2));
    assert_eq!(reg.queued_transactions.len(), 2);
    assert_eq!(reg.watched_transactions.len(), 0);

    let moved = reg.drain_queues();
    assert!(moved);
    assert_eq!(reg.queued_transactions.len(), 0);
    assert!(reg.watched_transactions.contains(&txid(1)));
    assert!(reg.watched_transactions.contains(&txid(2)));

    // An id registered after the drain waits in the queue for the next one.
    reg.register_transaction(txid(3));
    assert!(reg.queued_transactions.contains(&txid(3)));
    assert!(!reg.watched_transactions.contains(&txid(3)));
    let moved_again = reg.drain_queues();
    assert!(moved_again);
    assert!(reg.watched_transactions.contains(&txid(3)));
}

#[test]
fn drain_with_nothing_queued_reports_nothing_moved() {
    let mut reg = WatchRegistry::new();
    assert!(!reg.drain_queues());
    reg.register_transaction(txid(9));
    assert!(reg.drain_queues());
    assert!(!reg.drain_queues());
}

#[test]
fn duplicate_registration_yields_one_watched_entry() {
    let mut reg = WatchRegistry::new();
    reg.register_transaction(txid(7));
    reg.register_transaction(txid(7));
    assert_eq!(reg.queued_transactions.len(), 1);
    reg.drain_queues();
    let occurrences = reg
        .watched_transactions
        .iter()
        .filter(|t| **t == txid(7))
        .count();
    assert_eq!(occurrences, 1);
}

#[test]
fn outputs_deduplicate_by_outpoint_only() {
    let mut reg = WatchRegistry::new();
    reg.register_output(watched_output(5, 0, vec![0xaa]));
    // Same outpoint, different script metadata: still the same watch target.
    reg.register_output(watched_output(5, 0, vec![0xbb]));
    reg.register_output(watched_output(5, 1, vec![0xaa]));
    assert_eq!(reg.queued_outputs.len(), 2);
    reg.drain_queues();
    assert_eq!(reg.watched_outputs.len(), 2);
    assert_eq!(reg.queued_outputs.len(), 0);
}
