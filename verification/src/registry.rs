//! The watch registry: a queued and a watched set for transactions, and
//! the same pair for outputs.  Registration inserts into a queued set;
//! `drain_queues` moves everything queued into the watched sets, so a
//! target registered mid-pass is picked up by the following pass and is
//! never lost.  Both pairs hold each target at most once: transactions by
//! id, outputs by outpoint.

use vstd::prelude::*;

use crate::types::{OutPoint, TxId, WatchedOutput};

verus! {

/// No transaction id occurs twice.
pub open spec fn txids_unique(s: Seq<TxId>) -> bool {
    forall|i: int, j: int| 0 <= i < j < s.len() ==> s[i] != s[j]
}

/// No outpoint occurs twice.
pub open spec fn outpoints_unique(s: Seq<WatchedOutput>) -> bool {
    forall|i: int, j: int| 0 <= i < j < s.len() ==> s[i].outpoint != s[j].outpoint
}

/// Some entry watches this outpoint.
pub open spec fn holds_outpoint(s: Seq<WatchedOutput>, outpoint: OutPoint) -> bool {
    exists|i: int| 0 <= i < s.len() && s[i].outpoint == outpoint
}

/// How often a transaction id occurs.
pub open spec fn txid_occurrences(s: Seq<TxId>, txid: TxId) -> nat
    decreases s.len(),
{
    if s.len() == 0 {
        0
    } else {
        txid_occurrences(s.drop_last(), txid) + if s.last() == txid {
            1nat
        } else {
            0nat
        }
    }
}

/// The queued/watched set pairs for transactions and outputs.
pub struct WatchRegistry {
    pub queued_transactions: Vec<TxId>,
    pub watched_transactions: Vec<TxId>,
    pub queued_outputs: Vec<WatchedOutput>,
    pub watched_outputs: Vec<WatchedOutput>,
}

impl WatchRegistry {
    /// Each of the four sets holds a target at most once.
    pub open spec fn inv(self) -> bool {
        &&& txids_unique(self.queued_transactions@)
        &&& txids_unique(self.watched_transactions@)
        &&& outpoints_unique(self.queued_outputs@)
        &&& outpoints_unique(self.watched_outputs@)
    }

    /// Anything at all is queued.
    pub open spec fn has_pending(self) -> bool {
        self.queued_transactions@.len() > 0 || self.queued_outputs@.len() > 0
    }

    pub fn new() -> (r: WatchRegistry)
        ensures
            r.inv(),
            r.queued_transactions@.len() == 0,
            r.watched_transactions@.len() == 0,
            r.queued_outputs@.len() == 0,
            r.watched_outputs@.len() == 0,
    {
        WatchRegistry {
            queued_transactions: Vec::new(),
            watched_transactions: Vec::new(),
            queued_outputs: Vec::new(),
            watched_outputs: Vec::new(),
        }
    }

    /// Queue a transaction id for confirmation tracking.  Registering an
    /// id already queued is a no-op: the queue keeps set semantics.
    pub fn register_transaction(&mut self, txid: TxId)
        requires
            old(self).inv(),
        ensures
            final(self).inv(),
            forall|t: TxId|
                #[trigger] final(self).queued_transactions@.contains(t) <==> (old(
                    self,
                ).queued_transactions@.contains(t) || t == txid),
            final(self).watched_transactions == old(self).watched_transactions,
            final(self).queued_outputs == old(self).queued_outputs,
            final(self).watched_outputs == old(self).watched_outputs,
    {
        if !contains_txid(&self.queued_transactions, txid) {
            proof {
                lemma_txid_push(self.queued_transactions@, txid);
            }
            self.queued_transactions.push(txid);
        }
    }

    /// Queue an output for spend detection.  An output whose outpoint is
    /// already queued is dropped: de-duplication goes by outpoint alone,
    /// whatever the script or block hint says.
    pub fn register_output(&mut self, output: WatchedOutput)
        requires
            old(self).inv(),
        ensures
            final(self).inv(),
            forall|op: OutPoint|
                #[trigger] holds_outpoint(final(self).queued_outputs@, op) <==> (holds_outpoint(
                    old(self).queued_outputs@,
                    op,
                ) || op == output.outpoint),
            final(self).watched_transactions == old(self).watched_transactions,
            final(self).queued_transactions == old(self).queued_transactions,
            final(self).watched_outputs == old(self).watched_outputs,
    {
        if !contains_outpoint(&self.queued_outputs, output.outpoint) {
            proof {
                lemma_output_push(self.queued_outputs@, output);
            }
            self.queued_outputs.push(output);
        }
    }

    /// Put a transaction id straight into the watched set, as the
    /// unconfirmed-transaction sweep does for a reorged-out transaction
    /// that must be re-resolved on a later pass.
    pub fn watch_transaction(&mut self, txid: TxId)
        requires
            old(self).inv(),
        ensures
            final(self).inv(),
            forall|t: TxId|
                #[trigger] final(self).watched_transactions@.contains(t) <==> (old(
                    self,
                ).watched_transactions@.contains(t) || t == txid),
            final(self).queued_transactions == old(self).queued_transactions,
            final(self).queued_outputs == old(self).queued_outputs,
            final(self).watched_outputs == old(self).watched_outputs,
    {
        if !contains_txid(&self.watched_transactions, txid) {
            proof {
                lemma_txid_push(self.watched_transactions@, txid);
            }
            self.watched_transactions.push(txid);
        }
    }

    /// Move everything queued into the watched sets and clear the queues,
    /// reporting whether anything was moved.  Every id queued beforehand
    /// is watched afterwards and no longer queued; nothing else enters or
    /// leaves the watched sets.
    pub fn drain_queues(&mut self) -> (moved: bool)
        requires
            old(self).inv(),
        ensures
            final(self).inv(),
            moved == old(self).has_pending(),
            final(self).queued_transactions@.len() == 0,
            final(self).queued_outputs@.len() == 0,
            forall|t: TxId|
                #[trigger] final(self).watched_transactions@.contains(t) <==> (old(
                    self,
                ).watched_transactions@.contains(t) || old(self).queued_transactions@.contains(t)),
            forall|op: OutPoint|
                #[trigger] holds_outpoint(final(self).watched_outputs@, op) <==> (holds_outpoint(
                    old(self).watched_outputs@,
                    op,
                ) || holds_outpoint(old(self).queued_outputs@, op)),
    {
        let moved: bool = self.queued_transactions.len() > 0 || self.queued_outputs.len() > 0;
        loop
            invariant
                txids_unique(self.queued_transactions@),
                txids_unique(self.watched_transactions@),
                self.queued_outputs == old(self).queued_outputs,
                self.watched_outputs == old(self).watched_outputs,
                forall|t: TxId|
                    (self.watched_transactions@.contains(t) || self.queued_transactions@.contains(
                        t,
                    )) <==> (old(self).watched_transactions@.contains(t) || old(
                        self,
                    ).queued_transactions@.contains(t)),
            ensures
                self.queued_transactions@.len() == 0,
                txids_unique(self.watched_transactions@),
                self.queued_outputs == old(self).queued_outputs,
                self.watched_outputs == old(self).watched_outputs,
                forall|t: TxId|
                    self.watched_transactions@.contains(t) <==> (old(
                        self,
                    ).watched_transactions@.contains(t) || old(self).queued_transactions@.contains(
                        t,
                    )),
            decreases self.queued_transactions@.len(),
        {
            let ghost prev_queue = self.queued_transactions@;
            match self.queued_transactions.pop() {
                Some(txid) => {
                    proof {
                        lemma_txid_pop(prev_queue);
                    }
                    if !contains_txid(&self.watched_transactions, txid) {
                        proof {
                            lemma_txid_push(self.watched_transactions@, txid);
                        }
                        self.watched_transactions.push(txid);
                    }
                },
                None => {
                    break ;
                },
            }
        }
        loop
            invariant
                outpoints_unique(self.queued_outputs@),
                outpoints_unique(self.watched_outputs@),
                self.queued_transactions@.len() == 0,
                txids_unique(self.watched_transactions@),
                forall|t: TxId|
                    self.watched_transactions@.contains(t) <==> (old(
                        self,
                    ).watched_transactions@.contains(t) || old(self).queued_transactions@.contains(
                        t,
                    )),
                forall|op: OutPoint|
                    (holds_outpoint(self.watched_outputs@, op) || holds_outpoint(
                        self.queued_outputs@,
                        op,
                    )) <==> (holds_outpoint(old(self).watched_outputs@, op) || holds_outpoint(
                        old(self).queued_outputs@,
                        op,
                    )),
            ensures
                self.queued_outputs@.len() == 0,
                outpoints_unique(self.watched_outputs@),
                self.queued_transactions@.len() == 0,
                txids_unique(self.watched_transactions@),
                forall|t: TxId|
                    self.watched_transactions@.contains(t) <==> (old(
                        self,
                    ).watched_transactions@.contains(t) || old(self).queued_transactions@.contains(
                        t,
                    )),
                forall|op: OutPoint|
                    holds_outpoint(self.watched_outputs@, op) <==> (holds_outpoint(
                        old(self).watched_outputs@,
                        op,
                    ) || holds_outpoint(old(self).queued_outputs@, op)),
            decreases self.queued_outputs@.len(),
        {
            let ghost prev_queue = self.queued_outputs@;
            match self.queued_outputs.pop() {
                Some(output) => {
                    proof {
                        lemma_output_pop(prev_queue);
                    }
                    if !contains_outpoint(&self.watched_outputs, output.outpoint) {
                        proof {
                            lemma_output_push(self.watched_outputs@, output);
                        }
                        self.watched_outputs.push(output);
                    }
                },
                None => {
                    break ;
                },
            }
        }
        moved
    }

    /// Remove a transaction id from the watched set, as the commit of a
    /// pass does once the id is confirmed.
    pub fn unwatch_transaction(&mut self, txid: TxId)
        requires
            old(self).inv(),
        ensures
            final(self).inv(),
            forall|t: TxId|
                #[trigger] final(self).watched_transactions@.contains(t) <==> (old(
                    self,
                ).watched_transactions@.contains(t) && t != txid),
            final(self).queued_transactions == old(self).queued_transactions,
            final(self).queued_outputs == old(self).queued_outputs,
            final(self).watched_outputs == old(self).watched_outputs,
    {
        let n: usize = self.watched_transactions.len();
        let mut i: usize = 0;
        while i < n
            invariant
                0 <= i <= n,
                n == self.watched_transactions@.len(),
                txids_unique(self.watched_transactions@),
                txids_unique(self.queued_transactions@),
                outpoints_unique(self.queued_outputs@),
                outpoints_unique(self.watched_outputs@),
                forall|j: int| 0 <= j < i ==> self.watched_transactions@[j] != txid,
                self.watched_transactions == old(self).watched_transactions,
                self.queued_transactions == old(self).queued_transactions,
                self.queued_outputs == old(self).queued_outputs,
                self.watched_outputs == old(self).watched_outputs,
            decreases n - i,
        {
            if self.watched_transactions[i] == txid {
                proof {
                    lemma_txid_remove(self.watched_transactions@, i as int);
                }
                self.watched_transactions.remove(i);
                return ;
            }
            i = i + 1;
        }
        proof {
            assert(!self.watched_transactions@.contains(txid));
        }
    }

    /// Remove every watched output whose outpoint is in `spent`, as the
    /// commit of a pass does for outputs discovered spent.
    pub fn unwatch_spent_outputs(&mut self, spent: &Vec<OutPoint>)
        requires
            old(self).inv(),
        ensures
            final(self).inv(),
            forall|op: OutPoint|
                #[trigger] holds_outpoint(final(self).watched_outputs@, op) <==> (holds_outpoint(
                    old(self).watched_outputs@,
                    op,
                ) && !spent@.contains(op)),
            final(self).queued_transactions == old(self).queued_transactions,
            final(self).watched_transactions == old(self).watched_transactions,
            final(self).queued_outputs == old(self).queued_outputs,
    {
        let mut kept: Vec<WatchedOutput> = Vec::new();
        loop
            invariant
                outpoints_unique(self.watched_outputs@),
                outpoints_unique(kept@),
                forall|op: OutPoint|
                    (holds_outpoint(kept@, op) || (holds_outpoint(self.watched_outputs@, op)
                        && !spent@.contains(op))) <==> (holds_outpoint(
                        old(self).watched_outputs@,
                        op,
                    ) && !spent@.contains(op)),
                forall|op: OutPoint| holds_outpoint(kept@, op) ==> !spent@.contains(op),
                forall|op: OutPoint|
                    holds_outpoint(kept@, op) ==> !holds_outpoint(self.watched_outputs@, op),
                self.queued_transactions == old(self).queued_transactions,
                self.watched_transactions == old(self).watched_transactions,
                self.queued_outputs == old(self).queued_outputs,
            ensures
                outpoints_unique(kept@),
                forall|op: OutPoint|
                    holds_outpoint(kept@, op) <==> (holds_outpoint(old(self).watched_outputs@, op)
                        && !spent@.contains(op)),
                self.queued_transactions == old(self).queued_transactions,
                self.watched_transactions == old(self).watched_transactions,
                self.queued_outputs == old(self).queued_outputs,
            decreases self.watched_outputs@.len(),
        {
            let ghost prev_watched = self.watched_outputs@;
            let ghost prev_kept = kept@;
            match self.watched_outputs.pop() {
                Some(output) => {
                    proof {
                        lemma_output_pop(prev_watched);
                        assert(prev_watched[prev_watched.len() - 1].outpoint == output.outpoint);
                        assert(holds_outpoint(prev_watched, output.outpoint));
                    }
                    let is_spent: bool = contains_point(spent, output.outpoint);
                    if !is_spent {
                        proof {
                            assert(!holds_outpoint(kept@, output.outpoint));
                            lemma_output_push(kept@, output);
                        }
                        kept.push(output);
                    }
                    proof {
                        let o = output.outpoint;
                        assert forall|op: OutPoint|
                            (holds_outpoint(kept@, op) || (holds_outpoint(
                                self.watched_outputs@,
                                op,
                            ) && !spent@.contains(op))) <==> (holds_outpoint(
                                old(self).watched_outputs@,
                                op,
                            ) && !spent@.contains(op)) by {
                            assert((holds_outpoint(prev_kept, op) || (holds_outpoint(
                                prev_watched,
                                op,
                            ) && !spent@.contains(op))) <==> (holds_outpoint(
                                old(self).watched_outputs@,
                                op,
                            ) && !spent@.contains(op)));
                            assert(holds_outpoint(prev_watched, op) <==> (holds_outpoint(
                                self.watched_outputs@,
                                op,
                            ) || op == o));
                            if !is_spent {
                                assert(holds_outpoint(kept@, op) <==> (holds_outpoint(
                                    prev_kept,
                                    op,
                                ) || op == o));
                            } else {
                                assert(kept@ == prev_kept);
                            }
                        }
                        assert forall|op: OutPoint| holds_outpoint(kept@, op) implies
                            !holds_outpoint(self.watched_outputs@, op) by {
                            assert(!holds_outpoint(self.watched_outputs@, o));
                            if op != o {
                                if holds_outpoint(self.watched_outputs@, op) {
                                    assert(holds_outpoint(prev_watched, op));
                                }
                                if holds_outpoint(prev_kept, op) {
                                    assert(!holds_outpoint(prev_watched, op));
                                }
                            }
                        }
                    }
                },
                None => {
                    break ;
                },
            }
        }
        self.watched_outputs = kept;
    }
}

/// Whether the list holds this transaction id.
pub fn contains_txid(v: &Vec<TxId>, txid: TxId) -> (r: bool)
    ensures
        r == v@.contains(txid),
{
    let n: usize = v.len();
    let mut i: usize = 0;
    while i < n
        invariant
            0 <= i <= n,
            n == v@.len(),
            forall|j: int| 0 <= j < i ==> v@[j] != txid,
        decreases n - i,
    {
        if v[i] == txid {
            return true;
        }
        i = i + 1;
    }
    false
}

/// Whether some watched output in the list has this outpoint.
pub fn contains_outpoint(v: &Vec<WatchedOutput>, outpoint: OutPoint) -> (r: bool)
    ensures
        r == holds_outpoint(v@, outpoint),
{
    let n: usize = v.len();
    let mut i: usize = 0;
    while i < n
        invariant
            0 <= i <= n,
            n == v@.len(),
            forall|j: int| 0 <= j < i ==> v@[j].outpoint != outpoint,
        decreases n - i,
    {
        if v[i].outpoint == outpoint {
            return true;
        }
        i = i + 1;
    }
    false
}

/// Whether the list holds this outpoint.
pub fn contains_point(v: &Vec<OutPoint>, outpoint: OutPoint) -> (r: bool)
    ensures
        r == v@.contains(outpoint),
{
    let n: usize = v.len();
    let mut i: usize = 0;
    while i < n
        invariant
            0 <= i <= n,
            n == v@.len(),
            forall|j: int| 0 <= j < i ==> v@[j] != outpoint,
        decreases n - i,
    {
        if v[i] == outpoint {
            return true;
        }
        i = i + 1;
    }
    false
}

/// An id that does not occur in a list occurs zero times.
proof fn lemma_absent_occurrences(s: Seq<TxId>, txid: TxId)
    requires
        !s.contains(txid),
    ensures
        txid_occurrences(s, txid) == 0,
    decreases s.len(),
{
    if s.len() > 0 {
        assert forall|k: int| 0 <= k < s.drop_last().len() implies s.drop_last()[k] != txid by {
            assert(s[k] == s.drop_last()[k]);
        }
        assert(!s.drop_last().contains(txid));
        lemma_absent_occurrences(s.drop_last(), txid);
        assert(s.last() != txid) by {
            if s.last() == txid {
                assert(s[s.len() - 1] == txid);
            }
        }
    }
}

/// Law: a watched set holds any id it contains exactly once.  In
/// particular, registering the same transaction id twice before a drain
/// leaves exactly one watched entry after the drain, never two.
pub proof fn law_single_watched_entry(reg: WatchRegistry, txid: TxId)
    requires
        reg.inv(),
        reg.watched_transactions@.contains(txid),
    ensures
        txid_occurrences(reg.watched_transactions@, txid) == 1,
{
    lemma_unique_occurrences(reg.watched_transactions@, txid);
}

/// A duplicate-free list holds a present id exactly once.
proof fn lemma_unique_occurrences(s: Seq<TxId>, txid: TxId)
    requires
        txids_unique(s),
        s.contains(txid),
    ensures
        txid_occurrences(s, txid) == 1,
    decreases s.len(),
{
    lemma_txid_pop(s);
    if s.last() == txid {
        assert(!s.drop_last().contains(txid));
        lemma_absent_occurrences(s.drop_last(), txid);
    } else {
        assert(s.drop_last().contains(txid));
        lemma_unique_occurrences(s.drop_last(), txid);
    }
}

/// Appending an id not yet present keeps uniqueness, and the result holds
/// exactly the old ids and the new one.
proof fn lemma_txid_push(s: Seq<TxId>, txid: TxId)
    requires
        txids_unique(s),
        !s.contains(txid),
    ensures
        txids_unique(s.push(txid)),
        forall|t: TxId| s.push(txid).contains(t) <==> (s.contains(t) || t == txid),
{
    assert forall|t: TxId| s.push(txid).contains(t) implies (s.contains(t) || t == txid) by {
        let k = choose|k: int| 0 <= k < s.push(txid).len() && s.push(txid)[k] == t;
        if k < s.len() {
            assert(s[k] == t);
        }
    }
    assert forall|t: TxId| (s.contains(t) || t == txid) implies s.push(txid).contains(t) by {
        if s.contains(t) {
            let k = choose|k: int| 0 <= k < s.len() && s[k] == t;
            assert(s.push(txid)[k] == t);
        } else {
            assert(s.push(txid)[s.len() as int] == t);
        }
    }
    assert forall|i: int, j: int| 0 <= i < j < s.push(txid).len() implies s.push(txid)[i]
        != s.push(txid)[j] by {
        if j == s.len() {
            if s.push(txid)[i] == s.push(txid)[j] {
                assert(s[i] == txid);
                assert(s.contains(txid));
            }
        }
    }
}

/// An id list splits into its last element and the rest: membership in the
/// whole is membership in the rest or being the last.
proof fn lemma_txid_pop(s: Seq<TxId>)
    requires
        s.len() > 0,
    ensures
        forall|t: TxId| s.contains(t) <==> (s.drop_last().contains(t) || t == s.last()),
        txids_unique(s) ==> txids_unique(s.drop_last()),
        txids_unique(s) ==> !s.drop_last().contains(s.last()),
{
    if txids_unique(s) && s.drop_last().contains(s.last()) {
        let k = choose|k: int| 0 <= k < s.drop_last().len() && s.drop_last()[k] == s.last();
        assert(s[k] == s.last());
        assert(s[k] == s[s.len() - 1]);
    }
    assert forall|t: TxId| s.contains(t) implies (s.drop_last().contains(t) || t == s.last()) by {
        let k = choose|k: int| 0 <= k < s.len() && s[k] == t;
        if k < s.len() - 1 {
            assert(s.drop_last()[k] == t);
        }
    }
    assert forall|t: TxId| (s.drop_last().contains(t) || t == s.last()) implies s.contains(t) by {
        if s.drop_last().contains(t) {
            let k = choose|k: int| 0 <= k < s.drop_last().len() && s.drop_last()[k] == t;
            assert(s[k] == t);
        } else {
            assert(s[s.len() - 1] == t);
        }
    }
}

/// Removing the entry at `i` from a duplicate-free id list keeps it
/// duplicate-free and removes exactly that id.
proof fn lemma_txid_remove(s: Seq<TxId>, i: int)
    requires
        txids_unique(s),
        0 <= i < s.len(),
    ensures
        txids_unique(s.remove(i)),
        forall|t: TxId| s.remove(i).contains(t) <==> (s.contains(t) && t != s[i]),
{
    s.remove_ensures(i);
    assert forall|t: TxId| s.remove(i).contains(t) implies (s.contains(t) && t != s[i]) by {
        let k = choose|k: int| 0 <= k < s.remove(i).len() && s.remove(i)[k] == t;
        if k < i {
            assert(s[k] == t);
        } else {
            assert(s[k + 1] == t);
        }
    }
    assert forall|t: TxId| (s.contains(t) && t != s[i]) implies s.remove(i).contains(t) by {
        let k = choose|k: int| 0 <= k < s.len() && s[k] == t;
        if k < i {
            assert(s.remove(i)[k] == t);
        } else {
            assert(k != i);
            assert(s.remove(i)[k - 1] == t);
        }
    }
    assert forall|a: int, b: int| 0 <= a < b < s.remove(i).len() implies s.remove(i)[a]
        != s.remove(i)[b] by {
        if a < i {
            if b < i {
                assert(s.remove(i)[a] == s[a] && s.remove(i)[b] == s[b]);
            } else {
                assert(s.remove(i)[a] == s[a] && s.remove(i)[b] == s[b + 1]);
            }
        } else {
            assert(s.remove(i)[a] == s[a + 1] && s.remove(i)[b] == s[b + 1]);
        }
    }
}

/// Appending an output whose outpoint is not yet present keeps outpoints
/// unique, and the result holds exactly the old outpoints and the new one.
proof fn lemma_output_push(s: Seq<WatchedOutput>, output: WatchedOutput)
    requires
        outpoints_unique(s),
        !holds_outpoint(s, output.outpoint),
    ensures
        outpoints_unique(s.push(output)),
        forall|op: OutPoint|
            holds_outpoint(s.push(output), op) <==> (holds_outpoint(s, op) || op
                == output.outpoint),
{
    assert forall|op: OutPoint| holds_outpoint(s.push(output), op) implies (holds_outpoint(s, op)
        || op == output.outpoint) by {
        let k = choose|k: int| 0 <= k < s.push(output).len() && s.push(output)[k].outpoint == op;
        if k < s.len() {
            assert(s[k].outpoint == op);
        }
    }
    assert forall|op: OutPoint| (holds_outpoint(s, op) || op == output.outpoint) implies
        holds_outpoint(s.push(output), op) by {
        if holds_outpoint(s, op) {
            let k = choose|k: int| 0 <= k < s.len() && s[k].outpoint == op;
            assert(s.push(output)[k].outpoint == op);
        } else {
            assert(s.push(output)[s.len() as int].outpoint == op);
        }
    }
    assert forall|i: int, j: int| 0 <= i < j < s.push(output).len() implies s.push(
        output,
    )[i].outpoint != s.push(output)[j].outpoint by {
        if j == s.len() {
            if s.push(output)[i].outpoint == s.push(output)[j].outpoint {
                assert(s[i].outpoint == output.outpoint);
                assert(holds_outpoint(s, output.outpoint));
            }
        }
    }
}

/// An output list splits into its last element and the rest: an outpoint of
/// the whole is one of the rest or the last entry's.
proof fn lemma_output_pop(s: Seq<WatchedOutput>)
    requires
        s.len() > 0,
    ensures
        forall|op: OutPoint|
            holds_outpoint(s, op) <==> (holds_outpoint(s.drop_last(), op) || op
                == s.last().outpoint),
        outpoints_unique(s) ==> outpoints_unique(s.drop_last()),
        outpoints_unique(s) ==> !holds_outpoint(s.drop_last(), s.last().outpoint),
{
    if outpoints_unique(s) && holds_outpoint(s.drop_last(), s.last().outpoint) {
        let k = choose|k: int|
            0 <= k < s.drop_last().len() && s.drop_last()[k].outpoint == s.last().outpoint;
        assert(s[k].outpoint == s.last().outpoint);
        assert(s[k].outpoint == s[s.len() - 1].outpoint);
    }
    assert forall|op: OutPoint| holds_outpoint(s, op) implies (holds_outpoint(s.drop_last(), op)
        || op == s.last().outpoint) by {
        let k = choose|k: int| 0 <= k < s.len() && s[k].outpoint == op;
        if k < s.len() - 1 {
            assert(s.drop_last()[k].outpoint == op);
        }
    }
    assert forall|op: OutPoint| (holds_outpoint(s.drop_last(), op) || op == s.last().outpoint)
        implies holds_outpoint(s, op) by {
        if holds_outpoint(s.drop_last(), op) {
            let k = choose|k: int| 0 <= k < s.drop_last().len() && s.drop_last()[k].outpoint == op;
            assert(s[k].outpoint == op);
        } else {
            assert(s[s.len() - 1].outpoint == op);
        }
    }
}

} // verus!
