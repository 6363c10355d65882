//! The reconciliation loop: a state machine that drives one full
//! synchronization pass at a time.  A pass drains the watch registry,
//! sweeps previously relevant transactions for reorgs, resolves the
//! confirmation status of every watched transaction and output, re-checks
//! the chain tip, and only then commits: confirmation notifications go
//! out in ascending (height, position) order and the watch sets shrink.
//! A cross-check failure restarts the pass from the top; a provider
//! failure aborts it with the watch sets untouched.
//!
//! The engine performs no I/O.  Each step returns the notifications owed
//! to the consumers and the next [`Action`] for the driver, which answers
//! with an [`Event`].

use vstd::prelude::*;

use crate::registry::{
    contains_point, contains_txid, holds_outpoint, outpoints_unique, txids_unique, WatchRegistry,
};
use crate::resolve::{resolve_step, resolve_step_spec, ResolveOutcome, ResolveStage, ResolveTask};
use crate::types::{
    Action, BlockHash, BlockHeader, BlockStatus, ConfirmedTx, Event, Notification, OutPoint,
    Outcome, Query, SyncError, TxId, WatchedOutput,
};

verus! {

broadcast use vstd::seq_lib::group_seq_properties;

/// Chain order on confirmation records: by block height, then by
/// position within the block.
pub open spec fn chain_order_le(a: ConfirmedTx, b: ConfirmedTx) -> bool {
    a.block_height < b.block_height || (a.block_height == b.block_height && a.pos <= b.pos)
}

/// The records are in non-decreasing (height, position) order.
pub open spec fn chain_sorted(s: Seq<ConfirmedTx>) -> bool {
    forall|i: int, j: int| 0 <= i < j < s.len() ==> chain_order_le(s[i], s[j])
}

/// No transaction id is recorded twice.
pub open spec fn confirmed_txids_unique(s: Seq<ConfirmedTx>) -> bool {
    forall|i: int, j: int| 0 <= i < j < s.len() ==> s[i].txid != s[j].txid
}

/// Some record is for this transaction id.
pub open spec fn holds_confirmed_txid(s: Seq<ConfirmedTx>, txid: TxId) -> bool {
    exists|i: int| 0 <= i < s.len() && s[i].txid == txid
}

/// The notification a confirmation record turns into at commit.
pub open spec fn confirmation_note(c: ConfirmedTx) -> Notification {
    Notification::TransactionConfirmed {
        header: c.block_header,
        tx: c.tx,
        txid: c.txid,
        pos: c.pos,
        height: c.block_height,
    }
}

/// The notifications for a committed batch, in batch order.
pub open spec fn confirmation_notes(s: Seq<ConfirmedTx>) -> Seq<Notification> {
    s.map(|i: int, c: ConfirmedTx| confirmation_note(c))
}

/// The notification that a transaction left the best chain.
pub open spec fn unconfirmed_note(txid: TxId) -> Notification {
    Notification::TransactionUnconfirmed { txid }
}

/// No element occurs twice.
pub open spec fn distinct_seq<A>(s: Seq<A>) -> bool {
    forall|i: int, j: int| 0 <= i < j < s.len() ==> s[i] != s[j]
}

/// Either `result` is `s` itself because the id is already recorded, or
/// `result` is `s` with the record inserted somewhere.
pub open spec fn accumulated(s: Seq<ConfirmedTx>, record: ConfirmedTx, result: Seq<ConfirmedTx>) -> bool {
    if holds_confirmed_txid(s, record.txid) {
        result == s
    } else {
        exists|i: int| 0 <= i <= s.len() && result == s.insert(i, record)
    }
}

/// Law: a drain never loses a registration.  Every transaction id queued
/// when the queues are drained is in the watched set afterwards and out
/// of the queue; and every id watched before stays watched.
pub proof fn law_registration_never_lost(pre: WatchRegistry, post: WatchRegistry, txid: TxId)
    requires
        drained_registry(pre, post),
        pre.queued_transactions@.contains(txid) || pre.watched_transactions@.contains(txid),
    ensures
        post.watched_transactions@.contains(txid),
        !post.queued_transactions@.contains(txid),
{
    if post.queued_transactions@.contains(txid) {
        let k = choose|k: int|
            0 <= k < post.queued_transactions@.len() && post.queued_transactions@[k] == txid;
    }
}

/// Membership in a pushed sequence.
pub proof fn lemma_push_contains<A>(s: Seq<A>, x: A)
    ensures
        forall|y: A| #[trigger] s.push(x).contains(y) <==> (s.contains(y) || y == x),
{
    assert forall|y: A| #[trigger] s.push(x).contains(y) implies (s.contains(y) || y == x) by {
        let k = choose|k: int| 0 <= k < s.push(x).len() && s.push(x)[k] == y;
        if k < s.len() {
            assert(s[k] == y);
        }
    }
    assert forall|y: A| (s.contains(y) || y == x) implies #[trigger] s.push(x).contains(y) by {
        if s.contains(y) {
            let k = choose|k: int| 0 <= k < s.len() && s[k] == y;
            assert(s.push(x)[k] == y);
        } else {
            assert(s.push(x)[s.len() as int] == y);
        }
    }
}

/// Pushing a fresh element keeps a sequence duplicate-free.
pub proof fn lemma_push_distinct<A>(s: Seq<A>, x: A)
    requires
        distinct_seq(s),
        !s.contains(x),
    ensures
        distinct_seq(s.push(x)),
{
    assert forall|i: int, j: int| 0 <= i < j < s.push(x).len() implies s.push(x)[i] != s.push(
        x,
    )[j] by {
        if j == s.len() {
            if s.push(x)[i] == s.push(x)[j] {
                assert(s[i] == x);
                assert(s.contains(x));
            }
        }
    }
}

/// An exact copy of a transaction-id list.
fn copy_txids(v: &Vec<TxId>) -> (r: Vec<TxId>)
    ensures
        r@ == v@,
{
    let n: usize = v.len();
    let mut r: Vec<TxId> = Vec::new();
    let mut i: usize = 0;
    while i < n
        invariant
            0 <= i <= n,
            n == v@.len(),
            r@ == v@.take(i as int),
        decreases n - i,
    {
        r.push(v[i]);
        proof {
            assert(v@.take(i + 1 as int) =~= v@.take(i as int).push(v@[i as int]));
        }
        i = i + 1;
    }
    proof {
        assert(v@.take(n as int) =~= v@);
    }
    r
}

/// The outpoints of a watched-output list, in list order.
fn collect_outpoints(v: &Vec<WatchedOutput>) -> (r: Vec<OutPoint>)
    ensures
        r@.len() == v@.len(),
        forall|i: int| 0 <= i < v@.len() ==> r@[i] == v@[i].outpoint,
{
    let n: usize = v.len();
    let mut r: Vec<OutPoint> = Vec::new();
    let mut i: usize = 0;
    while i < n
        invariant
            0 <= i <= n,
            n == v@.len(),
            r@.len() == i,
            forall|j: int| 0 <= j < i ==> r@[j] == v@[j].outpoint,
        decreases n - i,
    {
        r.push(v[i].outpoint);
        i = i + 1;
    }
    r
}

/// Insert a confirmation record into a batch kept in chain order,
/// dropping it when its transaction id is already recorded: a batch never
/// reports the same transaction twice.
fn insert_confirmed(batch: &mut Vec<ConfirmedTx>, record: ConfirmedTx)
    requires
        chain_sorted(old(batch)@),
        confirmed_txids_unique(old(batch)@),
    ensures
        chain_sorted(final(batch)@),
        confirmed_txids_unique(final(batch)@),
        accumulated(old(batch)@, record, final(batch)@),
        forall|t: TxId|
            holds_confirmed_txid(final(batch)@, t) <==> (holds_confirmed_txid(old(batch)@, t) || t
                == record.txid),
{
    if batch_holds_txid(batch, record.txid) {
        return ;
    }
    let i: usize = find_insert_pos(batch, &record);
    let ghost prev = batch@;
    let ghost pos = i as int;
    proof {
        prev.insert_ensures(pos, record);
    }
    batch.insert(i, record);
    proof {
        assert(batch@ == prev.insert(pos, record));
        assert forall|a: int, b: int| 0 <= a < b < batch@.len() implies chain_order_le(
            batch@[a],
            batch@[b],
        ) by {
            if b < pos {
                assert(batch@[a] == prev[a] && batch@[b] == prev[b]);
            } else if a < pos && b == pos {
                assert(batch@[a] == prev[a] && batch@[b] == record);
            } else if a < pos {
                assert(batch@[a] == prev[a] && batch@[b] == prev[b - 1]);
            } else if a == pos {
                assert(batch@[a] == record && batch@[b] == prev[b - 1]);
            } else {
                assert(batch@[a] == prev[a - 1] && batch@[b] == prev[b - 1]);
            }
        }
        assert forall|a: int, b: int| 0 <= a < b < batch@.len() implies batch@[a].txid
            != batch@[b].txid by {
            if b < pos {
            } else if a < pos && b == pos {
                assert(batch@[a] == prev[a] && batch@[b] == record);
                assert(prev.contains(prev[a]));
                if prev[a].txid == record.txid {
                    assert(holds_confirmed_txid(prev, record.txid));
                }
            } else if a < pos {
            } else if a == pos {
                assert(batch@[a] == record && batch@[b] == prev[b - 1]);
                if prev[b - 1].txid == record.txid {
                    assert(holds_confirmed_txid(prev, record.txid));
                }
            } else {
            }
        }
        assert forall|t: TxId|
            holds_confirmed_txid(batch@, t) <==> (holds_confirmed_txid(prev, t) || t
                == record.txid) by {
            if holds_confirmed_txid(batch@, t) {
                let w = choose|w: int| 0 <= w < batch@.len() && batch@[w].txid == t;
                if w < pos {
                    assert(prev[w].txid == t);
                } else if w == pos {
                } else {
                    assert(prev[w - 1].txid == t);
                }
            }
            if holds_confirmed_txid(prev, t) {
                let w = choose|w: int| 0 <= w < prev.len() && prev[w].txid == t;
                if w < pos {
                    assert(batch@[w].txid == t);
                } else {
                    assert(batch@[w + 1].txid == t);
                }
            }
            if t == record.txid {
                assert(batch@[pos].txid == t);
            }
        }
    }
}

/// Whether some record in the batch is for this transaction id.
fn batch_holds_txid(batch: &Vec<ConfirmedTx>, txid: TxId) -> (r: bool)
    ensures
        r == holds_confirmed_txid(batch@, txid),
{
    let n: usize = batch.len();
    let mut k: usize = 0;
    while k < n
        invariant
            0 <= k <= n,
            n == batch@.len(),
            forall|j: int| 0 <= j < k ==> batch@[j].txid != txid,
        decreases n - k,
    {
        if batch[k].txid == txid {
            proof {
                assert(holds_confirmed_txid(batch@, txid));
            }
            return true;
        }
        k = k + 1;
    }
    false
}

/// The position where a record joins a batch kept in chain order: after
/// everything at or below its (height, position) key, before everything
/// strictly above it.
fn find_insert_pos(batch: &Vec<ConfirmedTx>, record: &ConfirmedTx) -> (i: usize)
    requires
        chain_sorted(batch@),
    ensures
        0 <= i <= batch@.len(),
        forall|j: int| 0 <= j < i ==> chain_order_le(batch@[j], *record),
        forall|j: int| i <= j < batch@.len() ==> chain_order_le(*record, batch@[j]),
{
    let n: usize = batch.len();
    let mut i: usize = 0;
    while i < n
        invariant
            0 <= i <= n,
            n == batch@.len(),
            chain_sorted(batch@),
            forall|j: int| 0 <= j < i ==> chain_order_le(batch@[j], *record),
        decreases n - i,
    {
        let strictly_after: bool = {
            let h: u32 = batch[i].block_height;
            let p: usize = batch[i].pos;
            h > record.block_height || (h == record.block_height && p > record.pos)
        };
        if strictly_after {
            proof {
                assert forall|j: int| i <= j < batch@.len() implies chain_order_le(
                    *record,
                    batch@[j],
                ) by {
                    if j > i {
                        assert(chain_order_le(batch@[i as int], batch@[j]));
                    }
                }
            }
            return i;
        }
        i = i + 1;
    }
    n
}

/// The notifications for a committed batch, one per record, in order.
fn confirmation_notifications(batch: Vec<ConfirmedTx>) -> (notes: Vec<Notification>)
    ensures
        notes@ == confirmation_notes(batch@),
{
    let ghost orig = batch@;
    let mut rest = batch;
    let mut notes: Vec<Notification> = Vec::new();
    loop
        invariant
            notes@.len() + rest@.len() == orig.len(),
            orig.skip(notes@.len() as int) == rest@,
            notes@ == confirmation_notes(orig.take(notes@.len() as int)),
        ensures
            rest@.len() == 0,
            notes@ == confirmation_notes(orig.take(notes@.len() as int)),
            notes@.len() == orig.len(),
        decreases rest@.len(),
    {
        if rest.len() == 0 {
            break ;
        }
        let ghost k = notes@.len() as int;
        let record = rest.remove(0);
        proof {
            assert(record == orig.skip(k)[0]);
            assert(record == orig[k]);
            assert(orig.skip(k).remove(0) =~= orig.skip(k + 1));
        }
        let note = Notification::TransactionConfirmed {
            header: record.block_header,
            tx: record.tx,
            txid: record.txid,
            pos: record.pos,
            height: record.block_height,
        };
        notes.push(note);
        proof {
            assert(orig.take(k + 1) =~= orig.take(k).push(orig[k]));
            assert(confirmation_notes(orig.take(k + 1)) =~= confirmation_notes(
                orig.take(k),
            ).push(confirmation_note(orig[k])));
        }
    }
    proof {
        assert(orig.take(orig.len() as int) =~= orig);
    }
    notes
}

/// Where in a pass the engine stands, and what it is waiting for.  The
/// variants carry the pass-local state: the tip the pass works against,
/// the targets still to resolve, and the batch resolved so far.
pub enum PassState {
    /// No pass is in progress.
    Idle,
    /// Waiting for the chain tip that the pass will work against.
    FetchingTip,
    /// Waiting for the consumers' relevant-transaction list.
    GatheringRelevant { tip: BlockHash },
    /// Waiting for the block status of `block_hash`, the last known
    /// confirmation block of `txid`; `rest` holds the sweep targets
    /// still to check.
    Sweeping { tip: BlockHash, txid: TxId, block_hash: BlockHash, rest: Vec<(TxId, BlockHash)> },
    /// Waiting for the tip's header.
    FetchingTipHeader { tip: BlockHash },
    /// Waiting for the tip's block status.
    FetchingTipStatus { tip: BlockHash, header: BlockHeader },
    /// Resolving a watched transaction; `txs` holds the ids still to
    /// resolve, `outs` the output snapshot for afterwards, `confirmed`
    /// the batch resolved so far.
    ResolvingTx {
        tip: BlockHash,
        task: ResolveTask,
        txs: Vec<TxId>,
        outs: Vec<OutPoint>,
        confirmed: Vec<ConfirmedTx>,
    },
    /// Waiting for the spend status of `outpoint`.
    CheckingOutput {
        tip: BlockHash,
        outpoint: OutPoint,
        outs: Vec<OutPoint>,
        confirmed: Vec<ConfirmedTx>,
        spent: Vec<OutPoint>,
    },
    /// Resolving the transaction reported to spend `outpoint`.
    ResolvingSpender {
        tip: BlockHash,
        task: ResolveTask,
        outpoint: OutPoint,
        outs: Vec<OutPoint>,
        confirmed: Vec<ConfirmedTx>,
        spent: Vec<OutPoint>,
    },
    /// Re-checking the tip just before committing the batch.
    CheckingTip { tip: BlockHash, confirmed: Vec<ConfirmedTx>, spent: Vec<OutPoint> },
}

impl PassState {
    /// The batch resolved so far is in chain order and reports no
    /// transaction twice.
    pub open spec fn wf(self) -> bool {
        match self {
            PassState::ResolvingTx { confirmed, .. } => chain_sorted(confirmed@)
                && confirmed_txids_unique(confirmed@),
            PassState::CheckingOutput { confirmed, .. } => chain_sorted(confirmed@)
                && confirmed_txids_unique(confirmed@),
            PassState::ResolvingSpender { confirmed, .. } => chain_sorted(confirmed@)
                && confirmed_txids_unique(confirmed@),
            PassState::CheckingTip { confirmed, .. } => chain_sorted(confirmed@)
                && confirmed_txids_unique(confirmed@),
            _ => true,
        }
    }
}

/// The chain-synchronization engine: the watch registry, the tip of the
/// last committed pass, and the state of the pass in progress.
pub struct MutinyChain {
    pub registry: WatchRegistry,
    pub last_sync_hash: Option<BlockHash>,
    pub pass: PassState,
}

/// The outpoints of a watched-output list, in list order.
pub open spec fn outpoint_seq(s: Seq<WatchedOutput>) -> Seq<OutPoint> {
    s.map(|i: int, o: WatchedOutput| o.outpoint)
}

/// The queues were emptied into the watched sets and nothing was lost:
/// afterwards a target is watched exactly when it was watched or queued
/// before.
pub open spec fn drained_registry(pre: WatchRegistry, post: WatchRegistry) -> bool {
    &&& post.queued_transactions@.len() == 0
    &&& post.queued_outputs@.len() == 0
    &&& forall|t: TxId|
        post.watched_transactions@.contains(t) <==> (pre.watched_transactions@.contains(t)
            || pre.queued_transactions@.contains(t))
    &&& forall|op: OutPoint|
        holds_outpoint(post.watched_outputs@, op) <==> (holds_outpoint(pre.watched_outputs@, op)
            || holds_outpoint(pre.queued_outputs@, op))
}

/// The pass aborted: the watch sets and the last-synced tip are exactly
/// as before, nothing was delivered, and the error is surfaced.
pub open spec fn aborted(
    pre_registry: WatchRegistry,
    pre_last: Option<BlockHash>,
    post: MutinyChain,
    error: SyncError,
    notes: Seq<Notification>,
    action: Action,
) -> bool {
    &&& post.registry == pre_registry
    &&& post.last_sync_hash == pre_last
    &&& post.pass is Idle
    &&& notes.len() == 0
    &&& action == Action::Failed(error)
}

/// The resolution phase advanced: the next watched transaction is
/// resolved first; when none are left the outputs are checked one by
/// one; when those are done the tip is re-checked before commit.
pub open spec fn advance_resolution_spec(
    tip: BlockHash,
    txs: Seq<TxId>,
    outs: Seq<OutPoint>,
    confirmed: Seq<ConfirmedTx>,
    spent: Seq<OutPoint>,
    post_pass: PassState,
    action: Action,
) -> bool {
    if txs.len() > 0 {
        &&& spent.len() == 0
        &&& post_pass matches PassState::ResolvingTx {
            tip: t,
            task,
            txs: txs2,
            outs: outs2,
            confirmed: c2,
        } && {
            &&& t == tip
            &&& task == (ResolveTask {
                txid: txs[0],
                expected_block_hash: None::<BlockHash>,
                known_height: None::<u32>,
                stage: ResolveStage::AwaitProof,
            })
            &&& txs2@ == txs.skip(1)
            &&& outs2@ == outs
            &&& c2@ == confirmed
            &&& action == Action::Ask(Query::GetMerkleProof { txid: txs[0] })
        }
    } else if outs.len() > 0 {
        post_pass matches PassState::CheckingOutput {
            tip: t,
            outpoint,
            outs: outs2,
            confirmed: c2,
            spent: s2,
        } && {
            &&& t == tip
            &&& outpoint == outs[0]
            &&& outs2@ == outs.skip(1)
            &&& c2@ == confirmed
            &&& s2@ == spent
            &&& action == Action::Ask(Query::GetOutputStatus { outpoint: outs[0] })
        }
    } else {
        post_pass matches PassState::CheckingTip { tip: t, confirmed: c2, spent: s2 } && {
            &&& t == tip
            &&& c2@ == confirmed
            &&& s2@ == spent
            &&& action == Action::Ask(Query::GetTipHash)
        }
    }
}

/// The resolution phase opened over a snapshot of the watched sets, with
/// an empty batch.
pub open spec fn resolution_queue_spec(post: MutinyChain, tip: BlockHash, action: Action) -> bool {
    advance_resolution_spec(
        tip,
        post.registry.watched_transactions@,
        outpoint_seq(post.registry.watched_outputs@),
        Seq::<ConfirmedTx>::empty(),
        Seq::<OutPoint>::empty(),
        post.pass,
        action,
    )
}

/// One iteration of the reconciliation loop began: the queues were
/// drained, and the engine either finished (nothing pending, tip
/// unchanged), started the reorg sweep (tip changed), or went straight
/// to resolution (registrations pending under an unchanged tip).
pub open spec fn iteration_spec(
    pre_registry: WatchRegistry,
    pre_last: Option<BlockHash>,
    post: MutinyChain,
    tip: BlockHash,
    notes: Seq<Notification>,
    action: Action,
) -> bool {
    &&& drained_registry(pre_registry, post.registry)
    &&& post.last_sync_hash == pre_last
    &&& notes.len() == 0
    &&& if !pre_registry.has_pending() && pre_last == Some(tip) {
        post.pass is Idle && action is Finished
    } else if pre_last != Some(tip) {
        post.pass == (PassState::GatheringRelevant { tip }) && action is GetRelevantTxids
    } else {
        resolution_queue_spec(post, tip, action)
    }
}

/// After the relevant-transaction list was absorbed, the sweep either
/// queries the first block hint or, with no hints to check, moves on to
/// the tip header.  The queued hints are exactly the distinct hinted
/// entries of the list.
pub open spec fn sweep_pending_spec(
    post: MutinyChain,
    tip: BlockHash,
    entries: Seq<(TxId, Option<BlockHash>)>,
    action: Action,
) -> bool {
    if exists|j: int| 0 <= j < entries.len() && entries[j].1 is Some {
        post.pass matches PassState::Sweeping { tip: t, txid, block_hash, rest } && {
            &&& t == tip
            &&& action == Action::Ask(Query::GetBlockStatus { block_hash })
            &&& forall|e: (TxId, BlockHash)|
                (seq![(txid, block_hash)] + rest@).contains(e) <==> prefix_has_some(
                    entries,
                    entries.len() as int,
                    e.0,
                    e.1,
                )
            &&& distinct_seq(seq![(txid, block_hash)] + rest@)
        }
    } else {
        post.pass == (PassState::FetchingTipHeader { tip }) && action == Action::Ask(
            Query::GetHeaderByHash { block_hash: tip },
        )
    }
}

/// The relevant-transaction list was absorbed: every entry without a
/// block hint is immediately unconfirmed — one notification each, the id
/// back in the watched set — and the hinted entries queue up for a
/// canonicality check.
pub open spec fn gather_spec(
    pre_registry: WatchRegistry,
    pre_last: Option<BlockHash>,
    post: MutinyChain,
    tip: BlockHash,
    entries: Seq<(TxId, Option<BlockHash>)>,
    notes: Seq<Notification>,
    action: Action,
) -> bool {
    &&& post.last_sync_hash == pre_last
    &&& post.registry.queued_transactions == pre_registry.queued_transactions
    &&& post.registry.queued_outputs == pre_registry.queued_outputs
    &&& post.registry.watched_outputs == pre_registry.watched_outputs
    &&& forall|t: TxId|
        post.registry.watched_transactions@.contains(t) <==> (
        pre_registry.watched_transactions@.contains(t) || prefix_has_none(
            entries,
            entries.len() as int,
            t,
        ))
    &&& forall|t: TxId|
        notes.contains(unconfirmed_note(t)) <==> prefix_has_none(
            entries,
            entries.len() as int,
            t,
        )
    &&& forall|k: int| 0 <= k < notes.len() ==> notes[k] is TransactionUnconfirmed
    &&& distinct_seq(notes)
    &&& sweep_pending_spec(post, tip, entries, action)
}

/// One sweep target was checked: a block still in the best chain means
/// the transaction stays confirmed and nothing happens; otherwise it is
/// reported unconfirmed and watched again.  Then the next target is
/// queried, or the sweep ends at the tip header.
pub open spec fn sweep_step_spec(
    pre_registry: WatchRegistry,
    pre_last: Option<BlockHash>,
    post: MutinyChain,
    tip: BlockHash,
    txid: TxId,
    rest: Seq<(TxId, BlockHash)>,
    status: BlockStatus,
    notes: Seq<Notification>,
    action: Action,
) -> bool {
    &&& post.last_sync_hash == pre_last
    &&& post.registry.queued_transactions == pre_registry.queued_transactions
    &&& post.registry.queued_outputs == pre_registry.queued_outputs
    &&& post.registry.watched_outputs == pre_registry.watched_outputs
    &&& if status.in_best_chain {
        notes.len() == 0 && post.registry.watched_transactions
            == pre_registry.watched_transactions
    } else {
        &&& notes.len() == 1
        &&& notes[0] == unconfirmed_note(txid)
        &&& forall|t: TxId|
            post.registry.watched_transactions@.contains(t) <==> (
            pre_registry.watched_transactions@.contains(t) || t == txid)
    }
    &&& if rest.len() > 0 {
        post.pass matches PassState::Sweeping { tip: t, txid: tx2, block_hash: h2, rest: r2 } && {
            &&& t == tip
            &&& tx2 == rest[0].0
            &&& h2 == rest[0].1
            &&& r2@ == rest.skip(1)
            &&& action == Action::Ask(Query::GetBlockStatus { block_hash: rest[0].1 })
        }
    } else {
        post.pass == (PassState::FetchingTipHeader { tip }) && action == Action::Ask(
            Query::GetHeaderByHash { block_hash: tip },
        )
    }
}

/// The tip's status came in: a canonical tip with a height is announced
/// to the consumers and resolution starts; a canonical tip without a
/// height starts resolution silently; a non-canonical tip is an
/// inconsistency and the pass restarts.
pub open spec fn tip_status_spec(
    pre_registry: WatchRegistry,
    pre_last: Option<BlockHash>,
    post: MutinyChain,
    tip: BlockHash,
    header: BlockHeader,
    status: BlockStatus,
    notes: Seq<Notification>,
    action: Action,
) -> bool {
    if status.in_best_chain {
        &&& post.registry == pre_registry
        &&& post.last_sync_hash == pre_last
        &&& (match status.height {
            Some(h) => notes.len() == 1 && notes[0] == (Notification::BestBlockUpdated {
                header,
                height: h,
            }),
            None => notes.len() == 0,
        })
        &&& resolution_queue_spec(post, tip, action)
    } else {
        iteration_spec(pre_registry, pre_last, post, tip, notes, action)
    }
}

/// A watched transaction's resolver step was fed: the lookup advances,
/// or its verdict is folded into the batch and the next target begins;
/// an inconsistency restarts the pass, an unanswerable event aborts it.
pub open spec fn resolving_tx_spec(
    pre_registry: WatchRegistry,
    pre_last: Option<BlockHash>,
    post: MutinyChain,
    tip: BlockHash,
    task: ResolveTask,
    txs: Seq<TxId>,
    outs: Seq<OutPoint>,
    confirmed: Seq<ConfirmedTx>,
    event: Event,
    notes: Seq<Notification>,
    action: Action,
) -> bool {
    match resolve_step_spec(task, event) {
        ResolveOutcome::Advance { task: task2, query } => {
            &&& post.registry == pre_registry
            &&& post.last_sync_hash == pre_last
            &&& notes.len() == 0
            &&& post.pass matches PassState::ResolvingTx {
                tip: t,
                task: t2,
                txs: txs2,
                outs: outs2,
                confirmed: c2,
            } && {
                &&& t == tip
                &&& t2 == task2
                &&& txs2@ == txs
                &&& outs2@ == outs
                &&& c2@ == confirmed
                &&& action == Action::Ask(query)
            }
        },
        ResolveOutcome::Confirmed { record } => {
            &&& post.registry == pre_registry
            &&& post.last_sync_hash == pre_last
            &&& notes.len() == 0
            &&& exists|acc: Seq<ConfirmedTx>|
                #[trigger] accumulated(confirmed, record, acc) && advance_resolution_spec(
                    tip,
                    txs,
                    outs,
                    acc,
                    Seq::<OutPoint>::empty(),
                    post.pass,
                    action,
                )
        },
        ResolveOutcome::NotConfirmed => {
            &&& post.registry == pre_registry
            &&& post.last_sync_hash == pre_last
            &&& notes.len() == 0
            &&& advance_resolution_spec(
                tip,
                txs,
                outs,
                confirmed,
                Seq::<OutPoint>::empty(),
                post.pass,
                action,
            )
        },
        ResolveOutcome::Inconsistent => iteration_spec(
            pre_registry,
            pre_last,
            post,
            tip,
            notes,
            action,
        ),
        ResolveOutcome::Unexpected => aborted(
            pre_registry,
            pre_last,
            post,
            SyncError::UnexpectedEvent,
            notes,
            action,
        ),
    }
}

/// What an output-status answer asks the engine to resolve: the spending
/// transaction and its reported status, when both are present.
pub open spec fn spend_lookup(status_opt: Option<crate::types::OutputStatus>) -> Option<
    (TxId, crate::types::TxStatus),
> {
    match status_opt {
        Some(os) => match os.spending_txid {
            Some(stxid) => match os.status {
                Some(ts) => Some((stxid, ts)),
                None => None,
            },
            None => None,
        },
        None => None,
    }
}

/// A watched output's spend status came in: a reported spender starts a
/// resolver lookup seeded with the reported block hash and height as
/// expectations; anything less moves on to the next output.
pub open spec fn checking_output_spec(
    pre_registry: WatchRegistry,
    pre_last: Option<BlockHash>,
    post: MutinyChain,
    tip: BlockHash,
    outpoint: OutPoint,
    outs: Seq<OutPoint>,
    confirmed: Seq<ConfirmedTx>,
    spent: Seq<OutPoint>,
    status_opt: Option<crate::types::OutputStatus>,
    notes: Seq<Notification>,
    action: Action,
) -> bool {
    &&& post.registry == pre_registry
    &&& post.last_sync_hash == pre_last
    &&& notes.len() == 0
    &&& (match spend_lookup(status_opt) {
        Some((stxid, ts)) => post.pass matches PassState::ResolvingSpender {
            tip: t,
            task,
            outpoint: op2,
            outs: outs2,
            confirmed: c2,
            spent: s2,
        } && {
            &&& t == tip
            &&& op2 == outpoint
            &&& task == (ResolveTask {
                txid: stxid,
                expected_block_hash: ts.block_hash,
                known_height: ts.block_height,
                stage: ResolveStage::AwaitProof,
            })
            &&& outs2@ == outs
            &&& c2@ == confirmed
            &&& s2@ == spent
            &&& action == Action::Ask(Query::GetMerkleProof { txid: stxid })
        },
        None => advance_resolution_spec(
            tip,
            Seq::<TxId>::empty(),
            outs,
            confirmed,
            spent,
            post.pass,
            action,
        ),
    })
}

/// A spender's resolver step was fed: on confirmation the record joins
/// the batch and the outpoint is marked spent; an unconfirmed spender
/// leaves the output watched; an inconsistency restarts the pass.
pub open spec fn resolving_spender_spec(
    pre_registry: WatchRegistry,
    pre_last: Option<BlockHash>,
    post: MutinyChain,
    tip: BlockHash,
    task: ResolveTask,
    outpoint: OutPoint,
    outs: Seq<OutPoint>,
    confirmed: Seq<ConfirmedTx>,
    spent: Seq<OutPoint>,
    event: Event,
    notes: Seq<Notification>,
    action: Action,
) -> bool {
    match resolve_step_spec(task, event) {
        ResolveOutcome::Advance { task: task2, query } => {
            &&& post.registry == pre_registry
            &&& post.last_sync_hash == pre_last
            &&& notes.len() == 0
            &&& post.pass matches PassState::ResolvingSpender {
                tip: t,
                task: t2,
                outpoint: op2,
                outs: outs2,
                confirmed: c2,
                spent: s2,
            } && {
                &&& t == tip
                &&& t2 == task2
                &&& op2 == outpoint
                &&& outs2@ == outs
                &&& c2@ == confirmed
                &&& s2@ == spent
                &&& action == Action::Ask(query)
            }
        },
        ResolveOutcome::Confirmed { record } => {
            &&& post.registry == pre_registry
            &&& post.last_sync_hash == pre_last
            &&& notes.len() == 0
            &&& exists|acc: Seq<ConfirmedTx>|
                #[trigger] accumulated(confirmed, record, acc) && advance_resolution_spec(
                    tip,
                    Seq::<TxId>::empty(),
                    outs,
                    acc,
                    spent.push(outpoint),
                    post.pass,
                    action,
                )
        },
        ResolveOutcome::NotConfirmed => {
            &&& post.registry == pre_registry
            &&& post.last_sync_hash == pre_last
            &&& notes.len() == 0
            &&& advance_resolution_spec(
                tip,
                Seq::<TxId>::empty(),
                outs,
                confirmed,
                spent,
                post.pass,
                action,
            )
        },
        ResolveOutcome::Inconsistent => iteration_spec(
            pre_registry,
            pre_last,
            post,
            tip,
            notes,
            action,
        ),
        ResolveOutcome::Unexpected => aborted(
            pre_registry,
            pre_last,
            post,
            SyncError::UnexpectedEvent,
            notes,
            action,
        ),
    }
}

/// The pre-commit tip check came in.  An unchanged tip commits: the
/// batch goes out in order, confirmed ids and spent outputs leave the
/// watched sets, the tip is recorded, and the loop turns once more.  A
/// changed tip discards the whole batch — nothing is committed — and
/// the pass restarts against the new tip.
pub open spec fn checking_tip_spec(
    pre_registry: WatchRegistry,
    pre_last: Option<BlockHash>,
    post: MutinyChain,
    tip: BlockHash,
    confirmed: Seq<ConfirmedTx>,
    spent: Seq<OutPoint>,
    block_hash: BlockHash,
    notes: Seq<Notification>,
    action: Action,
) -> bool {
    if block_hash == tip {
        &&& notes == confirmation_notes(confirmed)
        &&& post.last_sync_hash == Some(tip)
        &&& post.registry.queued_transactions@.len() == 0
        &&& post.registry.queued_outputs@.len() == 0
        &&& forall|t: TxId|
            post.registry.watched_transactions@.contains(t) <==> ((
            pre_registry.watched_transactions@.contains(t) && !holds_confirmed_txid(confirmed, t))
                || pre_registry.queued_transactions@.contains(t))
        &&& forall|op: OutPoint|
            holds_outpoint(post.registry.watched_outputs@, op) <==> ((holds_outpoint(
                pre_registry.watched_outputs@,
                op,
            ) && !spent.contains(op)) || holds_outpoint(pre_registry.queued_outputs@, op))
        &&& if !pre_registry.has_pending() {
            post.pass is Idle && action is Finished
        } else {
            resolution_queue_spec(post, tip, action)
        }
    } else {
        &&& notes.len() == 0
        &&& post.last_sync_hash == pre_last
        &&& iteration_spec(pre_registry, pre_last, post, block_hash, notes, action)
    }
}

/// The full transition relation of one engine step, case by case over
/// the state of the pass and the event handed in.
pub open spec fn step_spec(
    pre: MutinyChain,
    post: MutinyChain,
    event: Event,
    notes: Seq<Notification>,
    action: Action,
) -> bool {
    if pre.pass is Idle {
        post == pre && notes.len() == 0 && action == Action::Failed(SyncError::NotSyncing)
    } else {
        match event {
            Event::ProviderFailed { transient } => aborted(
                pre.registry,
                pre.last_sync_hash,
                post,
                SyncError::ProviderFailed { transient },
                notes,
                action,
            ),
            _ => match pre.pass {
                PassState::Idle => true,
                PassState::FetchingTip => match event {
                    Event::TipHash { block_hash } => iteration_spec(
                        pre.registry,
                        pre.last_sync_hash,
                        post,
                        block_hash,
                        notes,
                        action,
                    ),
                    _ => aborted(pre.registry, pre.last_sync_hash, post, SyncError::UnexpectedEvent, notes, action),
                },
                PassState::GatheringRelevant { tip } => match event {
                    Event::RelevantTxids { entries } => gather_spec(
                        pre.registry,
                        pre.last_sync_hash,
                        post,
                        tip,
                        entries@,
                        notes,
                        action,
                    ),
                    _ => aborted(pre.registry, pre.last_sync_hash, post, SyncError::UnexpectedEvent, notes, action),
                },
                PassState::Sweeping { tip, txid, block_hash, rest } => match event {
                    Event::BlockStatus { status } => sweep_step_spec(
                        pre.registry,
                        pre.last_sync_hash,
                        post,
                        tip,
                        txid,
                        rest@,
                        status,
                        notes,
                        action,
                    ),
                    _ => aborted(pre.registry, pre.last_sync_hash, post, SyncError::UnexpectedEvent, notes, action),
                },
                PassState::FetchingTipHeader { tip } => match event {
                    Event::Header { header } => {
                        &&& post.registry == pre.registry
                        &&& post.last_sync_hash == pre.last_sync_hash
                        &&& true
                        &&& notes.len() == 0
                        &&& post.pass == (PassState::FetchingTipStatus { tip, header })
                        &&& action == Action::Ask(Query::GetBlockStatus { block_hash: tip })
                    },
                    _ => aborted(pre.registry, pre.last_sync_hash, post, SyncError::UnexpectedEvent, notes, action),
                },
                PassState::FetchingTipStatus { tip, header } => match event {
                    Event::BlockStatus { status } => tip_status_spec(
                        pre.registry,
                        pre.last_sync_hash,
                        post,
                        tip,
                        header,
                        status,
                        notes,
                        action,
                    ),
                    _ => aborted(pre.registry, pre.last_sync_hash, post, SyncError::UnexpectedEvent, notes, action),
                },
                PassState::ResolvingTx { tip, task, txs, outs, confirmed } => resolving_tx_spec(
                    pre.registry,
                    pre.last_sync_hash,
                    post,
                    tip,
                    task,
                    txs@,
                    outs@,
                    confirmed@,
                    event,
                    notes,
                    action,
                ),
                PassState::CheckingOutput { tip, outpoint, outs, confirmed, spent } => match event {
                    Event::OutputStatus { status } => checking_output_spec(
                        pre.registry,
                        pre.last_sync_hash,
                        post,
                        tip,
                        outpoint,
                        outs@,
                        confirmed@,
                        spent@,
                        status,
                        notes,
                        action,
                    ),
                    _ => aborted(pre.registry, pre.last_sync_hash, post, SyncError::UnexpectedEvent, notes, action),
                },
                PassState::ResolvingSpender {
                    tip,
                    task,
                    outpoint,
                    outs,
                    confirmed,
                    spent,
                } => resolving_spender_spec(
                    pre.registry,
                    pre.last_sync_hash,
                    post,
                    tip,
                    task,
                    outpoint,
                    outs@,
                    confirmed@,
                    spent@,
                    event,
                    notes,
                    action,
                ),
                PassState::CheckingTip { tip, confirmed, spent } => match event {
                    Event::TipHash { block_hash } => checking_tip_spec(
                        pre.registry,
                        pre.last_sync_hash,
                        post,
                        tip,
                        confirmed@,
                        spent@,
                        block_hash,
                        notes,
                        action,
                    ),
                    _ => aborted(pre.registry, pre.last_sync_hash, post, SyncError::UnexpectedEvent, notes, action),
                },
            },
        }
    }
}

/// Among the confirmation notifications of one outcome, (height,
/// position) never decreases and no transaction id repeats.
pub open spec fn notes_chain_ordered(notes: Seq<Notification>) -> bool {
    forall|a: int, b: int|
        0 <= a < b < notes.len() ==> confirmed_pair_ordered(notes[a], notes[b])
}

/// Chain order between two notifications, trivial unless both report a
/// confirmation.
pub open spec fn confirmed_pair_ordered(x: Notification, y: Notification) -> bool {
    match x {
        Notification::TransactionConfirmed { txid: ta, pos: pa, height: ha, .. } => match y {
            Notification::TransactionConfirmed { txid: tb, pos: pb, height: hb, .. } => (ha < hb
                || (ha == hb && pa <= pb)) && ta != tb,
            _ => true,
        },
        _ => true,
    }
}

/// Some entry among the first `upto` is `(t, None)`.
pub open spec fn prefix_has_none(
    entries: Seq<(TxId, Option<BlockHash>)>,
    upto: int,
    t: TxId,
) -> bool {
    exists|j: int| 0 <= j < upto && entries[j].0 == t && entries[j].1 is None
}

/// Some entry among the first `upto` is `(t, Some(h))`.
pub open spec fn prefix_has_some(
    entries: Seq<(TxId, Option<BlockHash>)>,
    upto: int,
    t: TxId,
    h: BlockHash,
) -> bool {
    exists|j: int| 0 <= j < upto && entries[j].0 == t && entries[j].1 == Some(h)
}

/// Extending the prefix by one entry adds exactly that entry.
proof fn lemma_prefix_extend(entries: Seq<(TxId, Option<BlockHash>)>, i: int)
    requires
        0 <= i < entries.len(),
    ensures
        forall|t: TxId|
            prefix_has_none(entries, i + 1, t) <==> (prefix_has_none(entries, i, t) || (
            entries[i].0 == t && entries[i].1 is None)),
        forall|t: TxId, h: BlockHash|
            prefix_has_some(entries, i + 1, t, h) <==> (prefix_has_some(entries, i, t, h) || (
            entries[i].0 == t && entries[i].1 == Some(h))),
{
    assert forall|t: TxId|
        prefix_has_none(entries, i + 1, t) implies (prefix_has_none(entries, i, t) || (
    entries[i].0 == t && entries[i].1 is None)) by {
        let j = choose|j: int| 0 <= j < i + 1 && entries[j].0 == t && entries[j].1 is None;
        if j < i {
            assert(prefix_has_none(entries, i, t));
        }
    }
    assert forall|t: TxId, h: BlockHash|
        prefix_has_some(entries, i + 1, t, h) implies (prefix_has_some(entries, i, t, h) || (
    entries[i].0 == t && entries[i].1 == Some(h))) by {
        let j = choose|j: int| 0 <= j < i + 1 && entries[j].0 == t && entries[j].1 == Some(h);
        if j < i {
            assert(prefix_has_some(entries, i, t, h));
        }
    }
}

/// Some record among the first `upto` is for this id.
pub open spec fn prefix_holds_txid(s: Seq<ConfirmedTx>, upto: int, t: TxId) -> bool {
    exists|j: int| 0 <= j < upto && s[j].txid == t
}

/// Extending the record prefix by one adds exactly that record's id.
proof fn lemma_prefix_txid_extend(s: Seq<ConfirmedTx>, k: int)
    requires
        0 <= k < s.len(),
    ensures
        forall|t: TxId|
            prefix_holds_txid(s, k + 1, t) <==> (prefix_holds_txid(s, k, t) || s[k].txid == t),
{
    assert forall|t: TxId|
        prefix_holds_txid(s, k + 1, t) implies (prefix_holds_txid(s, k, t) || s[k].txid == t) by {
        let j = choose|j: int| 0 <= j < k + 1 && s[j].txid == t;
        if j < k {
            assert(prefix_holds_txid(s, k, t));
        }
    }
}

/// Whether the two registration entries agree in both components.
fn pair_eq(a: (TxId, Option<BlockHash>), b: (TxId, Option<BlockHash>)) -> (r: bool)
    ensures
        r == (a.0 == b.0 && a.1 == b.1),
{
    let keys_match: bool = a.0 == b.0;
    let hints_match: bool = match (a.1, b.1) {
        (None, None) => true,
        (Some(x), Some(y)) => x == y,
        _ => false,
    };
    keys_match && hints_match
}

/// Whether the entry occurs among the first `upto` entries.
fn entry_in_prefix(
    entries: &Vec<(TxId, Option<BlockHash>)>,
    upto: usize,
    entry: (TxId, Option<BlockHash>),
) -> (r: bool)
    requires
        upto <= entries@.len(),
    ensures
        r == exists|j: int|
            0 <= j < upto && entries@[j].0 == entry.0 && entries@[j].1 == entry.1,
{
    let mut j: usize = 0;
    while j < upto
        invariant
            0 <= j <= upto,
            upto <= entries@.len(),
            forall|k: int|
                0 <= k < j ==> !(entries@[k].0 == entry.0 && entries@[k].1 == entry.1),
        decreases upto - j,
    {
        if pair_eq(entries[j], entry) {
            return true;
        }
        j = j + 1;
    }
    false
}

/// An empty outcome carrying a failure.
fn failed_outcome(error: SyncError) -> (out: Outcome)
    ensures
        out.notifications@.len() == 0,
        out.action == Action::Failed(error),
{
    Outcome { notifications: Vec::new(), action: Action::Failed(error) }
}

impl MutinyChain {
    /// The registry holds each target at most once, and the batch of the
    /// pass in progress is in chain order without repeated ids.
    pub open spec fn inv(self) -> bool {
        self.registry.inv() && self.pass.wf()
    }

    /// A fresh engine: empty watch sets, no pass, no synced tip yet.
    pub fn new() -> (r: MutinyChain)
        ensures
            r.inv(),
            r.registry.queued_transactions@.len() == 0,
            r.registry.watched_transactions@.len() == 0,
            r.registry.queued_outputs@.len() == 0,
            r.registry.watched_outputs@.len() == 0,
            r.last_sync_hash is None,
            r.pass is Idle,
    {
        MutinyChain {
            registry: WatchRegistry::new(),
            last_sync_hash: None,
            pass: PassState::Idle,
        }
    }

    /// Register a transaction id for confirmation tracking.  May be
    /// called at any time, also mid-pass: the id sits in the queue until
    /// the next drain and is never lost.
    pub fn register_transaction(&mut self, txid: TxId)
        requires
            old(self).inv(),
        ensures
            final(self).inv(),
            forall|t: TxId|
                final(self).registry.queued_transactions@.contains(t) <==> (old(
                    self,
                ).registry.queued_transactions@.contains(t) || t == txid),
            final(self).registry.watched_transactions == old(self).registry.watched_transactions,
            final(self).registry.queued_outputs == old(self).registry.queued_outputs,
            final(self).registry.watched_outputs == old(self).registry.watched_outputs,
            final(self).last_sync_hash == old(self).last_sync_hash,
            final(self).pass == old(self).pass,
    {
        self.registry.register_transaction(txid);
    }

    /// Register an output for spend detection; de-duplicated by
    /// outpoint, callable at any time like `register_transaction`.
    pub fn register_output(&mut self, output: WatchedOutput)
        requires
            old(self).inv(),
        ensures
            final(self).inv(),
            forall|op: OutPoint|
                holds_outpoint(final(self).registry.queued_outputs@, op) <==> (holds_outpoint(
                    old(self).registry.queued_outputs@,
                    op,
                ) || op == output.outpoint),
            final(self).registry.watched_transactions == old(self).registry.watched_transactions,
            final(self).registry.queued_transactions == old(self).registry.queued_transactions,
            final(self).registry.watched_outputs == old(self).registry.watched_outputs,
            final(self).last_sync_hash == old(self).last_sync_hash,
            final(self).pass == old(self).pass,
    {
        self.registry.register_output(output);
    }

    /// Open a synchronization pass.  Only one pass runs at a time: while
    /// one is in progress the call fails with `AlreadySyncing` and
    /// changes nothing.
    pub fn start_sync(&mut self) -> (out: Outcome)
        requires
            old(self).inv(),
        ensures
            final(self).inv(),
            (old(self).pass is Idle) ==> ({
                &&& final(self).registry == old(self).registry
                &&& final(self).last_sync_hash == old(self).last_sync_hash
                &&& final(self).pass is FetchingTip
                &&& out.notifications@.len() == 0
                &&& out.action == Action::Ask(Query::GetTipHash)
            }),
            !(old(self).pass is Idle) ==> (*final(self) == *old(self) && out.notifications@.len()
                == 0 && out.action == Action::Failed(SyncError::AlreadySyncing)),
    {
        let idle: bool = match &self.pass {
            PassState::Idle => true,
            _ => false,
        };
        if idle {
            self.pass = PassState::FetchingTip;
            Outcome { notifications: Vec::new(), action: Action::Ask(Query::GetTipHash) }
        } else {
            failed_outcome(SyncError::AlreadySyncing)
        }
    }

    /// Feed the engine the answer to its outstanding action.  Returns
    /// the notifications now owed to every consumer, in order, and what
    /// the driver must do next.
    ///
    /// Within one committed pass the confirmation notifications are in
    /// non-decreasing (height, position) order and no transaction id
    /// repeats; a tip that moved between resolution and the final check
    /// commits nothing at all; a provider failure aborts the pass with
    /// the watch sets untouched.
    #[verifier::rlimit(100)]
    pub fn step(&mut self, event: Event) -> (out: Outcome)
        requires
            old(self).inv(),
        ensures
            final(self).inv(),
            step_spec(*old(self), *final(self), event, out.notifications@, out.action),
            // Within one committed pass, confirmations go out in
            // non-decreasing (height, position) order with no id twice.
            (old(self).pass is CheckingTip && event is TipHash) ==> notes_chain_ordered(
                out.notifications@,
            ),
            // All-or-nothing: a tip that moved between resolution and the
            // final check commits nothing — no notification goes out, the
            // synced tip stands, and nothing leaves the watch sets.
            ((old(self).pass is CheckingTip) && (event is TipHash)
                && event->TipHash_block_hash != old(self).pass->CheckingTip_tip) ==> ({
                &&& out.notifications@.len() == 0
                &&& final(self).last_sync_hash == old(self).last_sync_hash
                &&& (forall|t: TxId|
                    old(self).registry.watched_transactions@.contains(t) ==> final(self)
                        .registry
                        .watched_transactions@
                        .contains(t))
                &&& (forall|op: OutPoint|
                    holds_outpoint(old(self).registry.watched_outputs@, op) ==> holds_outpoint(
                        final(self).registry.watched_outputs@,
                        op,
                    ))
            }),
    {
        let not_started: bool = match &self.pass {
            PassState::Idle => true,
            _ => false,
        };
        if not_started {
            return failed_outcome(SyncError::NotSyncing);
        }
        let mut pass = PassState::Idle;
        core::mem::swap(&mut pass, &mut self.pass);
        match pass {
            PassState::Idle => {
                proof {
                    assert(false);
                }
                failed_outcome(SyncError::NotSyncing)
            },
            PassState::FetchingTip => match event {
                Event::TipHash { block_hash } => self.begin_iteration(block_hash),
                Event::ProviderFailed { transient } => failed_outcome(
                    SyncError::ProviderFailed { transient },
                ),
                _ => failed_outcome(SyncError::UnexpectedEvent),
            },
            PassState::GatheringRelevant { tip } => match event {
                Event::RelevantTxids { entries } => self.handle_relevant(tip, entries),
                Event::ProviderFailed { transient } => failed_outcome(
                    SyncError::ProviderFailed { transient },
                ),
                _ => failed_outcome(SyncError::UnexpectedEvent),
            },
            PassState::Sweeping { tip, txid, block_hash: _, rest } => match event {
                Event::BlockStatus { status } => self.handle_sweeping(tip, txid, rest, status),
                Event::ProviderFailed { transient } => failed_outcome(
                    SyncError::ProviderFailed { transient },
                ),
                _ => failed_outcome(SyncError::UnexpectedEvent),
            },
            PassState::FetchingTipHeader { tip } => match event {
                Event::Header { header } => {
                    self.pass = PassState::FetchingTipStatus { tip, header };
                    Outcome {
                        notifications: Vec::new(),
                        action: Action::Ask(Query::GetBlockStatus { block_hash: tip }),
                    }
                },
                Event::ProviderFailed { transient } => failed_outcome(
                    SyncError::ProviderFailed { transient },
                ),
                _ => failed_outcome(SyncError::UnexpectedEvent),
            },
            PassState::FetchingTipStatus { tip, header } => match event {
                Event::BlockStatus { status } => self.handle_tip_status(tip, header, status),
                Event::ProviderFailed { transient } => failed_outcome(
                    SyncError::ProviderFailed { transient },
                ),
                _ => failed_outcome(SyncError::UnexpectedEvent),
            },
            PassState::ResolvingTx { tip, task, txs, outs, confirmed } => match event {
                Event::ProviderFailed { transient } => failed_outcome(
                    SyncError::ProviderFailed { transient },
                ),
                other => self.handle_resolving_tx(tip, task, txs, outs, confirmed, other),
            },
            PassState::CheckingOutput { tip, outpoint, outs, confirmed, spent } => match event {
                Event::OutputStatus { status } => self.handle_checking_output(
                    tip,
                    outpoint,
                    outs,
                    confirmed,
                    spent,
                    status,
                ),
                Event::ProviderFailed { transient } => failed_outcome(
                    SyncError::ProviderFailed { transient },
                ),
                _ => failed_outcome(SyncError::UnexpectedEvent),
            },
            PassState::ResolvingSpender { tip, task, outpoint, outs, confirmed, spent } => {
                match event {
                    Event::ProviderFailed { transient } => failed_outcome(
                        SyncError::ProviderFailed { transient },
                    ),
                    other => self.handle_resolving_spender(
                        tip,
                        task,
                        outpoint,
                        outs,
                        confirmed,
                        spent,
                        other,
                    ),
                }
            },
            PassState::CheckingTip { tip, confirmed, spent } => match event {
                Event::TipHash { block_hash } => self.handle_checking_tip(
                    tip,
                    confirmed,
                    spent,
                    block_hash,
                ),
                Event::ProviderFailed { transient } => failed_outcome(
                    SyncError::ProviderFailed { transient },
                ),
                _ => failed_outcome(SyncError::UnexpectedEvent),
            },
        }
    }

    /// One turn of the reconciliation loop: drain the queues, then
    /// finish, start the reorg sweep, or start resolution.
    fn begin_iteration(&mut self, tip: BlockHash) -> (out: Outcome)
        requires
            old(self).registry.inv(),
            old(self).pass is Idle,
        ensures
            final(self).inv(),
            iteration_spec(
                old(self).registry,
                old(self).last_sync_hash,
                *final(self),
                tip,
                out.notifications@,
                out.action,
            ),
    {
        let moved: bool = self.registry.drain_queues();
        let tip_is_new: bool = match self.last_sync_hash {
            Some(h) => h != tip,
            None => true,
        };
        if !moved && !tip_is_new {
            Outcome { notifications: Vec::new(), action: Action::Finished }
        } else if tip_is_new {
            self.pass = PassState::GatheringRelevant { tip };
            Outcome { notifications: Vec::new(), action: Action::GetRelevantTxids }
        } else {
            self.start_resolution(tip)
        }
    }

    /// Snapshot the watched sets and open the resolution phase.
    fn start_resolution(&mut self, tip: BlockHash) -> (out: Outcome)
        requires
            old(self).registry.inv(),
            old(self).pass is Idle,
        ensures
            final(self).inv(),
            final(self).registry == old(self).registry,
            final(self).last_sync_hash == old(self).last_sync_hash,
            out.notifications@.len() == 0,
            resolution_queue_spec(*final(self), tip, out.action),
    {
        let txs: Vec<TxId> = copy_txids(&self.registry.watched_transactions);
        let outs: Vec<OutPoint> = collect_outpoints(&self.registry.watched_outputs);
        proof {
            assert(outs@ =~= outpoint_seq(self.registry.watched_outputs@));
        }
        let ghost txs_view = txs@;
        let ghost outs_view = outs@;
        let empty_batch: Vec<ConfirmedTx> = Vec::new();
        let empty_spent: Vec<OutPoint> = Vec::new();
        proof {
            assert(empty_batch@ =~= Seq::<ConfirmedTx>::empty());
            assert(empty_spent@ =~= Seq::<OutPoint>::empty());
        }
        let out = self.next_resolution(tip, txs, outs, empty_batch, empty_spent);
        proof {
            assert(txs_view == self.registry.watched_transactions@);
            assert(outs_view == outpoint_seq(self.registry.watched_outputs@));
        }
        out
    }

    /// Move to the next resolution target: a watched transaction first,
    /// then the outputs, then the pre-commit tip check.
    fn next_resolution(
        &mut self,
        tip: BlockHash,
        txs: Vec<TxId>,
        outs: Vec<OutPoint>,
        confirmed: Vec<ConfirmedTx>,
        spent: Vec<OutPoint>,
    ) -> (out: Outcome)
        requires
            old(self).registry.inv(),
            old(self).pass is Idle,
            chain_sorted(confirmed@),
            confirmed_txids_unique(confirmed@),
            txs@.len() > 0 ==> spent@.len() == 0,
        ensures
            final(self).inv(),
            final(self).registry == old(self).registry,
            final(self).last_sync_hash == old(self).last_sync_hash,
            out.notifications@.len() == 0,
            advance_resolution_spec(
                tip,
                txs@,
                outs@,
                confirmed@,
                spent@,
                final(self).pass,
                out.action,
            ),
    {
        let mut txs = txs;
        let mut outs = outs;
        if txs.len() > 0 {
            let ghost txs_view = txs@;
            let first: TxId = txs.remove(0);
            proof {
                assert(txs@ =~= txs_view.skip(1));
            }
            let (task, query) = ResolveTask::begin(first, None, None);
            self.pass = PassState::ResolvingTx { tip, task, txs, outs, confirmed };
            Outcome { notifications: Vec::new(), action: Action::Ask(query) }
        } else if outs.len() > 0 {
            let ghost outs_view = outs@;
            let first: OutPoint = outs.remove(0);
            proof {
                assert(outs@ =~= outs_view.skip(1));
            }
            self.pass = PassState::CheckingOutput { tip, outpoint: first, outs, confirmed, spent };
            Outcome {
                notifications: Vec::new(),
                action: Action::Ask(Query::GetOutputStatus { outpoint: first }),
            }
        } else {
            self.pass = PassState::CheckingTip { tip, confirmed, spent };
            Outcome { notifications: Vec::new(), action: Action::Ask(Query::GetTipHash) }
        }
    }

    /// Take one relevant-list entry: drop a duplicate, turn a hint-less
    /// entry into an unconfirmed notification and a watched id, queue a
    /// hinted entry for its canonicality check.
    fn absorb_entry(
        &mut self,
        notes: &mut Vec<Notification>,
        queue: &mut Vec<(TxId, BlockHash)>,
        entries: &Vec<(TxId, Option<BlockHash>)>,
        i: usize,
    )
        requires
            old(self).registry.inv(),
            i < entries@.len(),
            forall|t: TxId|
                prefix_has_none(entries@, i as int, t) ==> old(
                    self,
                ).registry.watched_transactions@.contains(t),
            forall|t: TxId|
                old(notes)@.contains(unconfirmed_note(t)) <==> prefix_has_none(
                    entries@,
                    i as int,
                    t,
                ),
            forall|k: int| 0 <= k < old(notes)@.len() ==> old(notes)@[k] is TransactionUnconfirmed,
            distinct_seq(old(notes)@),
            forall|e: (TxId, BlockHash)|
                old(queue)@.contains(e) <==> prefix_has_some(entries@, i as int, e.0, e.1),
            distinct_seq(old(queue)@),
        ensures
            final(self).registry.inv(),
            final(self).pass == old(self).pass,
            final(self).last_sync_hash == old(self).last_sync_hash,
            final(self).registry.queued_transactions == old(self).registry.queued_transactions,
            final(self).registry.queued_outputs == old(self).registry.queued_outputs,
            final(self).registry.watched_outputs == old(self).registry.watched_outputs,
            forall|t: TxId|
                final(self).registry.watched_transactions@.contains(t) <==> (old(
                    self,
                ).registry.watched_transactions@.contains(t) || (entries@[i as int].0 == t
                    && entries@[i as int].1 is None)),
            forall|t: TxId|
                final(notes)@.contains(unconfirmed_note(t)) <==> prefix_has_none(
                    entries@,
                    i as int + 1,
                    t,
                ),
            forall|k: int|
                0 <= k < final(notes)@.len() ==> final(notes)@[k] is TransactionUnconfirmed,
            distinct_seq(final(notes)@),
            forall|e: (TxId, BlockHash)|
                final(queue)@.contains(e) <==> prefix_has_some(entries@, i as int + 1, e.0, e.1),
            distinct_seq(final(queue)@),
    {
        let ghost notes0 = old(notes)@;
        let ghost queue0 = old(queue)@;
        let ghost watched_it = old(self).registry.watched_transactions@;
        let (entry_txid, entry_hint): (TxId, Option<BlockHash>) = entries[i];
        proof {
            assert(entries@[i as int].0 == entry_txid && entries@[i as int].1 == entry_hint);
            lemma_prefix_extend(entries@, i as int);
        }
        let duplicate: bool = entry_in_prefix(entries, i, (entry_txid, entry_hint));
        if duplicate {
            proof {
                let j0 = choose|j: int|
                    0 <= j < i && entries@[j].0 == entry_txid && entries@[j].1 == entry_hint;
                if entry_hint is None {
                    assert(entries@[j0].0 == entry_txid && entries@[j0].1 is None);
                    assert(prefix_has_none(entries@, i as int, entry_txid));
                }
                assert forall|t: TxId|
                    self.registry.watched_transactions@.contains(t) <==> (watched_it.contains(t)
                        || (entries@[i as int].0 == t && entries@[i as int].1 is None)) by {
                    if entries@[i as int].0 == t && entries@[i as int].1 is None {
                        assert(t == entry_txid && entry_hint is None);
                        assert(prefix_has_none(entries@, i as int, t));
                        assert(watched_it.contains(t));
                    }
                }
                assert forall|t: TxId|
                    notes@.contains(unconfirmed_note(t)) <==> prefix_has_none(
                        entries@,
                        i as int + 1,
                        t,
                    ) by {
                    assert(notes@.contains(unconfirmed_note(t)) <==> prefix_has_none(
                        entries@,
                        i as int,
                        t,
                    ));
                    if entries@[i as int].0 == t && entries@[i as int].1 is None {
                        assert(t == entry_txid && entry_hint is None);
                        assert(prefix_has_none(entries@, i as int, t));
                    }
                }
                assert forall|e: (TxId, BlockHash)|
                    queue@.contains(e) <==> prefix_has_some(entries@, i as int + 1, e.0, e.1) by {
                    assert(queue@.contains(e) <==> prefix_has_some(entries@, i as int, e.0, e.1));
                    if entries@[i as int].0 == e.0 && entries@[i as int].1 == Some(e.1) {
                        assert(entry_txid == e.0 && entry_hint == Some(e.1));
                        assert(entries@[j0].0 == e.0 && entries@[j0].1 == Some(e.1));
                        assert(prefix_has_some(entries@, i as int, e.0, e.1));
                    }
                }
            }
            return ;
        }
        match entry_hint {
            None => {
                proof {
                    assert(entries@[i as int].1 is None);
                    assert(!prefix_has_none(entries@, i as int, entry_txid)) by {
                        if prefix_has_none(entries@, i as int, entry_txid) {
                            let j = choose|j: int|
                                0 <= j < i && entries@[j].0 == entry_txid && entries@[j].1
                                    is None;
                            assert(entries@[j].1 == entry_hint);
                        }
                    }
                    assert(!notes@.contains(unconfirmed_note(entry_txid)));
                    lemma_push_contains(notes@, unconfirmed_note(entry_txid));
                    lemma_push_distinct(notes@, unconfirmed_note(entry_txid));
                }
                notes.push(Notification::TransactionUnconfirmed { txid: entry_txid });
                self.registry.watch_transaction(entry_txid);
                proof {
                    assert(notes@ == notes0.push(unconfirmed_note(entry_txid)));
                    assert forall|t: TxId|
                        self.registry.watched_transactions@.contains(t) <==> (
                        watched_it.contains(t) || (entries@[i as int].0 == t && entries@[
                            i as int
                        ].1 is None)) by {
                        assert(self.registry.watched_transactions@.contains(t) <==> (
                            watched_it.contains(t) || t == entry_txid));
                    }
                    assert forall|t: TxId|
                        notes@.contains(unconfirmed_note(t)) <==> prefix_has_none(
                            entries@,
                            i as int + 1,
                            t,
                        ) by {
                        assert(notes0.contains(unconfirmed_note(t)) <==> prefix_has_none(
                            entries@,
                            i as int,
                            t,
                        ));
                        assert(notes@.contains(unconfirmed_note(t)) <==> (notes0.contains(
                            unconfirmed_note(t),
                        ) || unconfirmed_note(t) == unconfirmed_note(entry_txid)));
                        if unconfirmed_note(t) == unconfirmed_note(entry_txid) {
                            assert(t == entry_txid);
                        }
                        if t == entry_txid {
                            assert(entries@[i as int].0 == t && entries@[i as int].1 is None);
                            assert(notes@.contains(unconfirmed_note(entry_txid)));
                        }
                    }
                    assert forall|e: (TxId, BlockHash)|
                        queue@.contains(e) <==> prefix_has_some(
                            entries@,
                            i as int + 1,
                            e.0,
                            e.1,
                        ) by {
                        assert(queue@.contains(e) <==> prefix_has_some(
                            entries@,
                            i as int,
                            e.0,
                            e.1,
                        ));
                        if entries@[i as int].0 == e.0 && entries@[i as int].1 == Some(e.1) {
                            assert(entries@[i as int].1 is None);
                        }
                    }
                }
                return ;
            },
            Some(h) => {
                proof {
                    assert(entry_hint == Some(h));
                    assert(!prefix_has_some(entries@, i as int, entry_txid, h)) by {
                        if prefix_has_some(entries@, i as int, entry_txid, h) {
                            let j = choose|j: int|
                                0 <= j < i && entries@[j].0 == entry_txid && entries@[j].1
                                    == Some(h);
                            assert(entries@[j].1 == entry_hint);
                        }
                    }
                    assert(!queue@.contains((entry_txid, h)));
                    lemma_push_contains(queue@, (entry_txid, h));
                    lemma_push_distinct(queue@, (entry_txid, h));
                }
                queue.push((entry_txid, h));
                proof {
                    assert(queue@ == queue0.push((entry_txid, h)));
                    assert forall|t: TxId|
                        self.registry.watched_transactions@.contains(t) <==> (
                        watched_it.contains(t) || (entries@[i as int].0 == t && entries@[
                            i as int
                        ].1 is None)) by {
                        if entries@[i as int].0 == t && entries@[i as int].1 is None {
                            assert(entries@[i as int].1 == Some(h));
                        }
                    }
                    assert forall|t: TxId|
                        notes@.contains(unconfirmed_note(t)) <==> prefix_has_none(
                            entries@,
                            i as int + 1,
                            t,
                        ) by {
                        assert(notes@.contains(unconfirmed_note(t)) <==> prefix_has_none(
                            entries@,
                            i as int,
                            t,
                        ));
                        if entries@[i as int].0 == t && entries@[i as int].1 is None {
                            assert(entries@[i as int].1 == Some(h));
                        }
                    }
                    assert forall|e: (TxId, BlockHash)|
                        queue@.contains(e) <==> prefix_has_some(
                            entries@,
                            i as int + 1,
                            e.0,
                            e.1,
                        ) by {
                        assert(queue0.contains(e) <==> prefix_has_some(
                            entries@,
                            i as int,
                            e.0,
                            e.1,
                        ));
                        assert(queue@.contains(e) <==> (queue0.contains(e) || e == (
                            entry_txid,
                            h,
                        )));
                        if e == (entry_txid, h) {
                            assert(e.0 == entry_txid && e.1 == h);
                            assert(entries@[i as int].0 == e.0 && entries@[i as int].1 == Some(
                                e.1,
                            ));
                        }
                        if entries@[i as int].0 == e.0 && entries@[i as int].1 == Some(e.1) {
                            assert(entry_hint == Some(e.1));
                            assert(h == e.1);
                            assert(e == (entry_txid, h));
                        }
                    }
                }
                return ;
            },
        }
    }

    /// Absorb the consumers' relevant-transaction list: entries without
    /// a block hint are unconfirmed at once, hinted entries queue up for
    /// a canonicality check, duplicates are dropped.
    #[verifier::loop_isolation(false)]
    fn handle_relevant(
        &mut self,
        tip: BlockHash,
        entries: Vec<(TxId, Option<BlockHash>)>,
    ) -> (out: Outcome)
        requires
            old(self).registry.inv(),
            old(self).pass is Idle,
        ensures
            final(self).inv(),
            gather_spec(
                old(self).registry,
                old(self).last_sync_hash,
                *final(self),
                tip,
                entries@,
                out.notifications@,
                out.action,
            ),
    {
        let mut notes: Vec<Notification> = Vec::new();
        let mut queue: Vec<(TxId, BlockHash)> = Vec::new();
        let ghost watched0 = self.registry.watched_transactions@;
        let n: usize = entries.len();
        let mut i: usize = 0;
        while i < n
            invariant
                0 <= i <= n,
                n == entries@.len(),
                self.registry.inv(),
                self.pass is Idle,
                self.last_sync_hash == old(self).last_sync_hash,
                self.registry.queued_transactions == old(self).registry.queued_transactions,
                self.registry.queued_outputs == old(self).registry.queued_outputs,
                self.registry.watched_outputs == old(self).registry.watched_outputs,
                watched0 == old(self).registry.watched_transactions@,
                forall|t: TxId|
                    #[trigger] self.registry.watched_transactions@.contains(t) ==> (
                    watched0.contains(t) || prefix_has_none(entries@, i as int, t)),
                forall|t: TxId|
                    #[trigger] prefix_has_none(entries@, i as int, t)
                        ==> self.registry.watched_transactions@.contains(t),
                forall|t: TxId|
                    #[trigger] watched0.contains(t)
                        ==> self.registry.watched_transactions@.contains(t),
                forall|t: TxId|
                    #[trigger] notes@.contains(unconfirmed_note(t)) ==> prefix_has_none(
                        entries@,
                        i as int,
                        t,
                    ),
                forall|t: TxId|
                    #[trigger] prefix_has_none(entries@, i as int, t) ==> notes@.contains(
                        unconfirmed_note(t),
                    ),
                forall|k: int| 0 <= k < notes@.len() ==> notes@[k] is TransactionUnconfirmed,
                distinct_seq(notes@),
                forall|e: (TxId, BlockHash)|
                    #[trigger] queue@.contains(e) ==> prefix_has_some(
                        entries@,
                        i as int,
                        e.0,
                        e.1,
                    ),
                forall|e: (TxId, BlockHash)|
                    #[trigger] prefix_has_some(entries@, i as int, e.0, e.1) ==> queue@.contains(
                        e,
                    ),
                distinct_seq(queue@),
            decreases n - i,
        {
            let ghost before_call = self.registry.watched_transactions@;
            proof {
                assert forall|t: TxId|
                    prefix_has_none(entries@, i as int, t) implies self
                    .registry
                    .watched_transactions@
                    .contains(t) by {}
            }
            self.absorb_entry(&mut notes, &mut queue, &entries, i);
            proof {
                lemma_prefix_extend(entries@, i as int);
                assert forall|t: TxId|
                    #[trigger] self.registry.watched_transactions@.contains(t) implies (
                watched0.contains(t) || prefix_has_none(entries@, i as int + 1, t)) by {
                    assert(before_call.contains(t) || (entries@[i as int].0 == t && entries@[
                        i as int
                    ].1 is None));
                    if before_call.contains(t) {
                        assert(watched0.contains(t) || prefix_has_none(entries@, i as int, t));
                    }
                }
                assert forall|t: TxId|
                    #[trigger] prefix_has_none(entries@, i as int + 1, t) implies self
                    .registry
                    .watched_transactions@
                    .contains(t) by {
                    assert(prefix_has_none(entries@, i as int, t) || (entries@[i as int].0 == t
                        && entries@[i as int].1 is None));
                    if prefix_has_none(entries@, i as int, t) {
                        assert(before_call.contains(t));
                    }
                }
                assert forall|t: TxId|
                    #[trigger] watched0.contains(t) implies self
                    .registry
                    .watched_transactions@
                    .contains(t) by {
                    assert(before_call.contains(t));
                }
                assert forall|t: TxId|
                    #[trigger] notes@.contains(unconfirmed_note(t)) implies prefix_has_none(
                    entries@,
                    i as int + 1,
                    t,
                ) by {}
                assert forall|t: TxId|
                    #[trigger] prefix_has_none(entries@, i as int + 1, t) implies notes@.contains(
                    unconfirmed_note(t),
                ) by {}
                assert forall|e: (TxId, BlockHash)|
                    #[trigger] queue@.contains(e) implies prefix_has_some(
                    entries@,
                    i as int + 1,
                    e.0,
                    e.1,
                ) by {}
                assert forall|e: (TxId, BlockHash)|
                    #[trigger] prefix_has_some(entries@, i as int + 1, e.0, e.1) implies queue@
                    .contains(e) by {}
            }
            i = i + 1;
        }
        if queue.len() > 0 {
            let ghost queue_view = queue@;
            let first: (TxId, BlockHash) = queue.remove(0);
            proof {
                assert(seq![first] + queue@ =~= queue_view);
                assert(queue_view[0] == first);
                assert(queue_view.contains(first));
                assert(prefix_has_some(entries@, n as int, first.0, first.1));
                let j = choose|j: int|
                    0 <= j < n && entries@[j].0 == first.0 && entries@[j].1 == Some(first.1);
                assert(entries@[j].1 is Some);
            }
            self.pass = PassState::Sweeping { tip, txid: first.0, block_hash: first.1, rest: queue };
            Outcome {
                notifications: notes,
                action: Action::Ask(Query::GetBlockStatus { block_hash: first.1 }),
            }
        } else {
            proof {
                if exists|j: int| 0 <= j < entries@.len() && entries@[j].1 is Some {
                    let j = choose|j: int| 0 <= j < entries@.len() && entries@[j].1 is Some;
                    let h = entries@[j].1->0;
                    assert(entries@[j].1 == Some(h));
                    let pair = (entries@[j].0, h);
                    assert(pair.0 == entries@[j].0 && pair.1 == h);
                    assert(prefix_has_some(entries@, i as int, pair.0, pair.1));
                    assert(queue@.contains(pair));
                }
            }
            self.pass = PassState::FetchingTipHeader { tip };
            Outcome {
                notifications: notes,
                action: Action::Ask(Query::GetHeaderByHash { block_hash: tip }),
            }
        }
    }

    /// Check one sweep target against the best chain and move to the
    /// next, or close the sweep at the tip header.
    fn handle_sweeping(
        &mut self,
        tip: BlockHash,
        txid: TxId,
        rest: Vec<(TxId, BlockHash)>,
        status: BlockStatus,
    ) -> (out: Outcome)
        requires
            old(self).registry.inv(),
            old(self).pass is Idle,
        ensures
            final(self).inv(),
            sweep_step_spec(
                old(self).registry,
                old(self).last_sync_hash,
                *final(self),
                tip,
                txid,
                rest@,
                status,
                out.notifications@,
                out.action,
            ),
    {
        let mut notes: Vec<Notification> = Vec::new();
        if !status.in_best_chain {
            notes.push(Notification::TransactionUnconfirmed { txid });
            self.registry.watch_transaction(txid);
        }
        let mut rest = rest;
        if rest.len() > 0 {
            let ghost rest_view = rest@;
            let next: (TxId, BlockHash) = rest.remove(0);
            proof {
                assert(rest@ =~= rest_view.skip(1));
            }
            self.pass = PassState::Sweeping { tip, txid: next.0, block_hash: next.1, rest };
            Outcome {
                notifications: notes,
                action: Action::Ask(Query::GetBlockStatus { block_hash: next.1 }),
            }
        } else {
            self.pass = PassState::FetchingTipHeader { tip };
            Outcome {
                notifications: notes,
                action: Action::Ask(Query::GetHeaderByHash { block_hash: tip }),
            }
        }
    }

    /// Act on the tip's block status: announce a canonical tip and start
    /// resolution, or restart the pass on a non-canonical one.
    fn handle_tip_status(
        &mut self,
        tip: BlockHash,
        header: BlockHeader,
        status: BlockStatus,
    ) -> (out: Outcome)
        requires
            old(self).registry.inv(),
            old(self).pass is Idle,
        ensures
            final(self).inv(),
            tip_status_spec(
                old(self).registry,
                old(self).last_sync_hash,
                *final(self),
                tip,
                header,
                status,
                out.notifications@,
                out.action,
            ),
    {
        if status.in_best_chain {
            let mut notes: Vec<Notification> = Vec::new();
            match status.height {
                Some(h) => {
                    notes.push(Notification::BestBlockUpdated { header, height: h });
                },
                None => {},
            }
            let resolved = self.start_resolution(tip);
            Outcome { notifications: notes, action: resolved.action }
        } else {
            self.begin_iteration(tip)
        }
    }

    /// Feed a watched transaction's resolver and fold its verdict into
    /// the pass.
    fn handle_resolving_tx(
        &mut self,
        tip: BlockHash,
        task: ResolveTask,
        txs: Vec<TxId>,
        outs: Vec<OutPoint>,
        confirmed: Vec<ConfirmedTx>,
        event: Event,
    ) -> (out: Outcome)
        requires
            old(self).registry.inv(),
            old(self).pass is Idle,
            chain_sorted(confirmed@),
            confirmed_txids_unique(confirmed@),
        ensures
            final(self).inv(),
            resolving_tx_spec(
                old(self).registry,
                old(self).last_sync_hash,
                *final(self),
                tip,
                task,
                txs@,
                outs@,
                confirmed@,
                event,
                out.notifications@,
                out.action,
            ),
    {
        let outcome = resolve_step(task, event);
        match outcome {
            ResolveOutcome::Advance { task: task2, query } => {
                self.pass = PassState::ResolvingTx { tip, task: task2, txs, outs, confirmed };
                Outcome { notifications: Vec::new(), action: Action::Ask(query) }
            },
            ResolveOutcome::Confirmed { record } => {
                let ghost confirmed_view = confirmed@;
                let ghost record_ghost = record;
                let mut confirmed = confirmed;
                insert_confirmed(&mut confirmed, record);
                let ghost acc_view = confirmed@;
                let empty_spent: Vec<OutPoint> = Vec::new();
                proof {
                    assert(empty_spent@ =~= Seq::<OutPoint>::empty());
                }
                let out = self.next_resolution(tip, txs, outs, confirmed, empty_spent);
                proof {
                    assert(accumulated(confirmed_view, record_ghost, acc_view)
                        && advance_resolution_spec(
                        tip,
                        txs@,
                        outs@,
                        acc_view,
                        Seq::<OutPoint>::empty(),
                        self.pass,
                        out.action,
                    ));
                }
                out
            },
            ResolveOutcome::NotConfirmed => {
                let empty_spent: Vec<OutPoint> = Vec::new();
                proof {
                    assert(empty_spent@ =~= Seq::<OutPoint>::empty());
                }
                self.next_resolution(tip, txs, outs, confirmed, empty_spent)
            },
            ResolveOutcome::Inconsistent => self.begin_iteration(tip),
            ResolveOutcome::Unexpected => failed_outcome(SyncError::UnexpectedEvent),
        }
    }

    /// Act on a watched output's spend status: resolve the reported
    /// spender, or move to the next output.
    fn handle_checking_output(
        &mut self,
        tip: BlockHash,
        outpoint: OutPoint,
        outs: Vec<OutPoint>,
        confirmed: Vec<ConfirmedTx>,
        spent: Vec<OutPoint>,
        status_opt: Option<crate::types::OutputStatus>,
    ) -> (out: Outcome)
        requires
            old(self).registry.inv(),
            old(self).pass is Idle,
            chain_sorted(confirmed@),
            confirmed_txids_unique(confirmed@),
        ensures
            final(self).inv(),
            checking_output_spec(
                old(self).registry,
                old(self).last_sync_hash,
                *final(self),
                tip,
                outpoint,
                outs@,
                confirmed@,
                spent@,
                status_opt,
                out.notifications@,
                out.action,
            ),
    {
        let lookup: Option<(TxId, crate::types::TxStatus)> = match status_opt {
            Some(os) => match os.spending_txid {
                Some(stxid) => match os.status {
                    Some(ts) => Some((stxid, ts)),
                    None => None,
                },
                None => None,
            },
            None => None,
        };
        match lookup {
            Some((stxid, ts)) => {
                let (task, query) = ResolveTask::begin(stxid, ts.block_hash, ts.block_height);
                self.pass = PassState::ResolvingSpender {
                    tip,
                    task,
                    outpoint,
                    outs,
                    confirmed,
                    spent,
                };
                Outcome { notifications: Vec::new(), action: Action::Ask(query) }
            },
            None => {
                let no_txs: Vec<TxId> = Vec::new();
                proof {
                    assert(no_txs@ =~= Seq::<TxId>::empty());
                }
                self.next_resolution(tip, no_txs, outs, confirmed, spent)
            },
        }
    }

    /// Feed the spender's resolver: a confirmed spender joins the batch
    /// and marks the output spent; anything else leaves the output
    /// watched and moves on.
    fn handle_resolving_spender(
        &mut self,
        tip: BlockHash,
        task: ResolveTask,
        outpoint: OutPoint,
        outs: Vec<OutPoint>,
        confirmed: Vec<ConfirmedTx>,
        spent: Vec<OutPoint>,
        event: Event,
    ) -> (out: Outcome)
        requires
            old(self).registry.inv(),
            old(self).pass is Idle,
            chain_sorted(confirmed@),
            confirmed_txids_unique(confirmed@),
        ensures
            final(self).inv(),
            resolving_spender_spec(
                old(self).registry,
                old(self).last_sync_hash,
                *final(self),
                tip,
                task,
                outpoint,
                outs@,
                confirmed@,
                spent@,
                event,
                out.notifications@,
                out.action,
            ),
    {
        let outcome = resolve_step(task, event);
        match outcome {
            ResolveOutcome::Advance { task: task2, query } => {
                self.pass = PassState::ResolvingSpender {
                    tip,
                    task: task2,
                    outpoint,
                    outs,
                    confirmed,
                    spent,
                };
                Outcome { notifications: Vec::new(), action: Action::Ask(query) }
            },
            ResolveOutcome::Confirmed { record } => {
                let ghost confirmed_view = confirmed@;
                let ghost spent_view = spent@;
                let ghost record_ghost = record;
                let mut confirmed = confirmed;
                let mut spent = spent;
                insert_confirmed(&mut confirmed, record);
                spent.push(outpoint);
                let ghost acc_view = confirmed@;
                let no_txs: Vec<TxId> = Vec::new();
                proof {
                    assert(no_txs@ =~= Seq::<TxId>::empty());
                }
                let out = self.next_resolution(tip, no_txs, outs, confirmed, spent);
                proof {
                    assert(accumulated(confirmed_view, record_ghost, acc_view)
                        && advance_resolution_spec(
                        tip,
                        Seq::<TxId>::empty(),
                        outs@,
                        acc_view,
                        spent_view.push(outpoint),
                        self.pass,
                        out.action,
                    ));
                }
                out
            },
            ResolveOutcome::NotConfirmed => {
                let no_txs: Vec<TxId> = Vec::new();
                proof {
                    assert(no_txs@ =~= Seq::<TxId>::empty());
                }
                self.next_resolution(tip, no_txs, outs, confirmed, spent)
            },
            ResolveOutcome::Inconsistent => self.begin_iteration(tip),
            ResolveOutcome::Unexpected => failed_outcome(SyncError::UnexpectedEvent),
        }
    }

    /// The pre-commit tip check: commit the batch when the tip held
    /// still, discard it and restart when the tip moved.
    #[verifier::loop_isolation(false)]
    fn handle_checking_tip(
        &mut self,
        tip: BlockHash,
        confirmed: Vec<ConfirmedTx>,
        spent: Vec<OutPoint>,
        block_hash: BlockHash,
    ) -> (out: Outcome)
        requires
            old(self).registry.inv(),
            old(self).pass is Idle,
            chain_sorted(confirmed@),
            confirmed_txids_unique(confirmed@),
        ensures
            final(self).inv(),
            checking_tip_spec(
                old(self).registry,
                old(self).last_sync_hash,
                *final(self),
                tip,
                confirmed@,
                spent@,
                block_hash,
                out.notifications@,
                out.action,
            ),
            block_hash == tip ==> notes_chain_ordered(out.notifications@),
    {
        if block_hash == tip {
            let ghost confirmed_view = confirmed@;
            let ghost watched0 = self.registry.watched_transactions@;
            let ghost reg0 = self.registry;
            let ghost last0 = self.last_sync_hash;
            let n: usize = confirmed.len();
            let mut k: usize = 0;
            while k < n
                invariant
                    0 <= k <= n,
                    n == confirmed@.len(),
                    confirmed@ == confirmed_view,
                    self.registry.inv(),
                    self.pass is Idle,
                    self.last_sync_hash == last0,
                    self.registry.queued_transactions == reg0.queued_transactions,
                    self.registry.queued_outputs == reg0.queued_outputs,
                    self.registry.watched_outputs == reg0.watched_outputs,
                    forall|t: TxId|
                        #[trigger] self.registry.watched_transactions@.contains(t) ==> (
                        watched0.contains(t) && !prefix_holds_txid(confirmed_view, k as int, t)),
                    forall|t: TxId|
                        #[trigger] watched0.contains(t) ==> (prefix_holds_txid(
                            confirmed_view,
                            k as int,
                            t,
                        ) || self.registry.watched_transactions@.contains(t)),
                decreases n - k,
            {
                let confirmed_txid: TxId = confirmed[k].txid;
                let ghost before_unwatch = self.registry.watched_transactions@;
                proof {
                    assert forall|t: TxId|
                        #[trigger] before_unwatch.contains(t) implies (watched0.contains(t)
                        && !prefix_holds_txid(confirmed_view, k as int, t)) by {}
                    assert forall|t: TxId|
                        #[trigger] watched0.contains(t) implies (prefix_holds_txid(
                        confirmed_view,
                        k as int,
                        t,
                    ) || before_unwatch.contains(t)) by {}
                }
                self.registry.unwatch_transaction(confirmed_txid);
                proof {
                    lemma_prefix_txid_extend(confirmed_view, k as int);
                    assert forall|t: TxId|
                        #[trigger] self.registry.watched_transactions@.contains(t) implies (
                    watched0.contains(t) && !prefix_holds_txid(
                        confirmed_view,
                        k as int + 1,
                        t,
                    )) by {
                        assert(self.registry.watched_transactions@.contains(t) <==> (
                            before_unwatch.contains(t) && t != confirmed_txid));
                        assert(before_unwatch.contains(t));
                        assert(confirmed_txid == confirmed_view[k as int].txid);
                        assert(prefix_holds_txid(confirmed_view, k as int + 1, t) <==> (
                            prefix_holds_txid(confirmed_view, k as int, t)
                                || confirmed_view[k as int].txid == t));
                    }
                    assert forall|t: TxId|
                        #[trigger] watched0.contains(t) implies (prefix_holds_txid(
                        confirmed_view,
                        k as int + 1,
                        t,
                    ) || self.registry.watched_transactions@.contains(t)) by {
                        assert(prefix_holds_txid(confirmed_view, k as int, t)
                            || before_unwatch.contains(t));
                        assert(self.registry.watched_transactions@.contains(t) <==> (
                            before_unwatch.contains(t) && t != confirmed_txid));
                        assert(confirmed_txid == confirmed_view[k as int].txid);
                        assert(prefix_holds_txid(confirmed_view, k as int + 1, t) <==> (
                            prefix_holds_txid(confirmed_view, k as int, t)
                                || confirmed_view[k as int].txid == t));
                    }
                }
                k = k + 1;
            }
            let ghost watched_cm = self.registry.watched_transactions@;
            let ghost outs_pre = self.registry.watched_outputs@;
            proof {
                assert forall|t: TxId|
                    #[trigger] watched_cm.contains(t) implies (watched0.contains(t)
                    && !holds_confirmed_txid(confirmed_view, t)) by {
                    assert(self.registry.watched_transactions@.contains(t) ==> (
                        watched0.contains(t) && !prefix_holds_txid(
                            confirmed_view,
                            n as int,
                            t,
                        )));
                    if prefix_holds_txid(confirmed_view, n as int, t) {
                        assert(holds_confirmed_txid(confirmed_view, t));
                    }
                    if holds_confirmed_txid(confirmed_view, t) {
                        assert(prefix_holds_txid(confirmed_view, n as int, t));
                    }
                }
                assert forall|t: TxId|
                    watched0.contains(t) && !holds_confirmed_txid(
                        confirmed_view,
                        t,
                    ) implies #[trigger] watched_cm.contains(t) by {
                    assert(watched0.contains(t) ==> (prefix_holds_txid(
                        confirmed_view,
                        n as int,
                        t,
                    ) || self.registry.watched_transactions@.contains(t)));
                    if prefix_holds_txid(confirmed_view, n as int, t) {
                        assert(holds_confirmed_txid(confirmed_view, t));
                    }
                }
            }
            self.registry.unwatch_spent_outputs(&spent);
            let ghost outs_cm = self.registry.watched_outputs@;
            proof {
                assert forall|op: OutPoint|
                    #[trigger] holds_outpoint(outs_cm, op) implies (holds_outpoint(
                    reg0.watched_outputs@,
                    op,
                ) && !spent@.contains(op)) by {
                    assert(holds_outpoint(self.registry.watched_outputs@, op) <==> (
                        holds_outpoint(outs_pre, op) && !spent@.contains(op)));
                }
                assert forall|op: OutPoint|
                    holds_outpoint(reg0.watched_outputs@, op) && !spent@.contains(
                        op,
                    ) implies #[trigger] holds_outpoint(outs_cm, op) by {
                    assert(holds_outpoint(self.registry.watched_outputs@, op) <==> (
                        holds_outpoint(outs_pre, op) && !spent@.contains(op)));
                }
            }
            self.last_sync_hash = Some(tip);
            let notes = confirmation_notifications(confirmed);
            proof {
                assert forall|a: int, b: int|
                    0 <= a < b < notes@.len() implies confirmed_pair_ordered(
                    notes@[a],
                    notes@[b],
                ) by {
                    assert(notes@[a] == confirmation_note(confirmed_view[a]));
                    assert(notes@[b] == confirmation_note(confirmed_view[b]));
                    assert(chain_order_le(confirmed_view[a], confirmed_view[b]));
                }
            }
            let ghost mid = *self;
            let cont = self.begin_iteration(tip);
            proof {
                assert(mid.registry.watched_transactions@ == watched_cm);
                assert(mid.registry.watched_outputs@ == outs_cm);
                assert(mid.registry.queued_transactions == reg0.queued_transactions);
                assert(mid.registry.queued_outputs == reg0.queued_outputs);
                assert forall|t: TxId|
                    #[trigger] self.registry.watched_transactions@.contains(t) <==> ((
                watched0.contains(t) && !holds_confirmed_txid(confirmed_view, t))
                    || reg0.queued_transactions@.contains(t)) by {
                    assert(self.registry.watched_transactions@.contains(t) <==> (
                        mid.registry.watched_transactions@.contains(t)
                            || mid.registry.queued_transactions@.contains(t)));
                    assert(mid.registry.watched_transactions@.contains(t) == watched_cm.contains(
                        t,
                    ));
                    if watched_cm.contains(t) {
                        assert(watched0.contains(t) && !holds_confirmed_txid(confirmed_view, t));
                    }
                    if watched0.contains(t) && !holds_confirmed_txid(confirmed_view, t) {
                        assert(watched_cm.contains(t));
                    }
                }
                assert forall|op: OutPoint|
                    #[trigger] holds_outpoint(self.registry.watched_outputs@, op) <==> ((
                holds_outpoint(reg0.watched_outputs@, op) && !spent@.contains(op))
                    || holds_outpoint(reg0.queued_outputs@, op)) by {
                    assert(holds_outpoint(self.registry.watched_outputs@, op) <==> (
                        holds_outpoint(mid.registry.watched_outputs@, op) || holds_outpoint(
                            mid.registry.queued_outputs@,
                            op,
                        )));
                    assert(holds_outpoint(mid.registry.watched_outputs@, op) == holds_outpoint(
                        outs_cm,
                        op,
                    ));
                    if holds_outpoint(outs_cm, op) {
                        assert(holds_outpoint(reg0.watched_outputs@, op) && !spent@.contains(op));
                    }
                    if holds_outpoint(reg0.watched_outputs@, op) && !spent@.contains(op) {
                        assert(holds_outpoint(outs_cm, op));
                    }
                }
                assert(mid.registry.has_pending() == old(self).registry.has_pending());
                assert(mid.last_sync_hash == Some(tip));
                assert(reg0 == old(self).registry);
                assert(watched0 == old(self).registry.watched_transactions@);
            }
            Outcome { notifications: notes, action: cont.action }
        } else {
            self.begin_iteration(block_hash)
        }
    }
}

} // verus!
