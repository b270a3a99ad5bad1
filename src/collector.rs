use vstd::prelude::*;

verus! {

/// A transaction as the scheduler hands it to a collector.
#[derive(Debug, Clone)]
pub struct PendingTx {
    pub tx_hash: String,
    pub start_ms: u64,
}

/// What a confirmation lookup found.
#[derive(Debug, Clone)]
pub enum Outcome {
    /// The receipt was found at `end_ms`; `success` is its status.
    Confirmed { end_ms: u64, success: bool },
    /// No receipt could be had.
    LookupFailed { error: String },
}

/// One transaction's record in the persistence backend.
#[derive(Debug, Clone)]
pub struct RunRecord {
    pub tx_hash: String,
    pub start_ms: u64,
    pub end_ms: Option<u64>,
    pub success: bool,
    pub error: Option<String>,
}

/// The record of `tx` after its lookup found `outcome`; a failed lookup is a
/// failed transaction.
pub open spec fn record_of(tx: PendingTx, outcome: Outcome) -> RunRecord {
    match outcome {
        Outcome::Confirmed { end_ms, success } => RunRecord {
            tx_hash: tx.tx_hash,
            start_ms: tx.start_ms,
            end_ms: Some(end_ms),
            success,
            error: None,
        },
        Outcome::LookupFailed { error } => RunRecord {
            tx_hash: tx.tx_hash,
            start_ms: tx.start_ms,
            end_ms: None,
            success: false,
            error: Some(error),
        },
    }
}

/// A collector that looks up each transaction's receipt and appends its
/// record to an in-memory store; it can be cancelled.
#[derive(Debug, Clone)]
pub struct LogCallback {
    pub cancelled: bool,
    /// Accepted transactions whose lookup is in flight.
    pub pending: Vec<PendingTx>,
    pub records: Vec<RunRecord>,
}

/// The collectors a run can be given.
#[derive(Debug, Clone)]
pub enum Callback {
    /// Discards every outcome; needs no store.
    Nil,
    /// Records every outcome.
    Log(LogCallback),
}

/// What a logging collector holds: its flag, the transactions whose lookup
/// is in flight, and the records it has written.
pub struct LogModel {
    pub cancelled: bool,
    pub pending: Seq<PendingTx>,
    pub records: Seq<RunRecord>,
}

/// One call made on a logging collector.
pub enum CollectorOp {
    Submit(PendingTx),
    Receipt(Seq<char>, Outcome),
    Cancel,
}

impl LogModel {
    pub open spec fn is_pending(self, h: Seq<char>) -> bool {
        exists|i: int| 0 <= i < self.pending.len() && (#[trigger] self.pending[i]).tx_hash@ == h
    }

    pub open spec fn is_recorded(self, h: Seq<char>) -> bool {
        exists|j: int| 0 <= j < self.records.len() && (#[trigger] self.records[j]).tx_hash@ == h
    }

    /// Whether submitting `tx` now starts a lookup: not cancelled, a
    /// non-empty id, and one neither in flight nor recorded.
    pub open spec fn accepts(self, tx: PendingTx) -> bool {
        &&& !self.cancelled
        &&& tx.tx_hash@.len() > 0
        &&& !self.is_pending(tx.tx_hash@)
        &&& !self.is_recorded(tx.tx_hash@)
    }

    /// Every id is non-empty and stands once, in flight or recorded.
    pub open spec fn wf(self) -> bool {
        &&& forall|i: int| 0 <= i < self.pending.len() ==> (#[trigger] self.pending[i]).tx_hash@.len() > 0
        &&& forall|j: int| 0 <= j < self.records.len() ==> (#[trigger] self.records[j]).tx_hash@.len() > 0
        &&& forall|i: int, k: int| 0 <= i < k < self.pending.len() ==>
            (#[trigger] self.pending[i]).tx_hash@ != (#[trigger] self.pending[k]).tx_hash@
        &&& forall|j: int, k: int| 0 <= j < k < self.records.len() ==>
            (#[trigger] self.records[j]).tx_hash@ != (#[trigger] self.records[k]).tx_hash@
        &&& forall|i: int, j: int| 0 <= i < self.pending.len() && 0 <= j < self.records.len() ==>
            (#[trigger] self.pending[i]).tx_hash@ != (#[trigger] self.records[j]).tx_hash@
    }

    /// The position of the transaction in flight with id `h`.
    pub open spec fn pending_index(self, h: Seq<char>) -> int {
        choose|i: int| 0 <= i < self.pending.len() && (#[trigger] self.pending[i]).tx_hash@ == h
    }

    /// The collector after `op`.
    pub open spec fn step(self, op: CollectorOp) -> LogModel {
        match op {
            CollectorOp::Submit(tx) =>
                if self.accepts(tx) { LogModel { pending: self.pending.push(tx), ..self } } else { self },
            CollectorOp::Receipt(h, outcome) =>
                if self.is_pending(h) {
                    let i = self.pending_index(h);
                    LogModel {
                        pending: self.pending.remove(i),
                        records: self.records.push(record_of(self.pending[i], outcome)),
                        ..self
                    }
                } else {
                    self
                },
            CollectorOp::Cancel => LogModel { cancelled: true, ..self },
        }
    }
}

/// The collector after each of `ops` in turn.
pub open spec fn apply_ops(m: LogModel, ops: Seq<CollectorOp>) -> LogModel
    decreases ops.len(),
{
    if ops.len() == 0 {
        m
    } else {
        apply_ops(m.step(ops[0]), ops.drop_first())
    }
}

/// The number of lookups that `ops` starts.
pub open spec fn lookups_started(m: LogModel, ops: Seq<CollectorOp>) -> nat
    decreases ops.len(),
{
    if ops.len() == 0 {
        0
    } else {
        let here: nat = match ops[0] {
            CollectorOp::Submit(tx) => if m.accepts(tx) { 1 } else { 0 },
            _ => 0,
        };
        here + lookups_started(m.step(ops[0]), ops.drop_first())
    }
}

impl View for LogCallback {
    type V = LogModel;

    open spec fn view(&self) -> LogModel {
        LogModel { cancelled: self.cancelled, pending: self.pending@, records: self.records@ }
    }
}

impl LogCallback {
    /// A collector with an empty store.
    pub fn new() -> (r: LogCallback)
        ensures
            r@.wf(),
            !r.cancelled,
            r.pending@.len() == 0,
            r.records@.len() == 0,
    {
        LogCallback { cancelled: false, pending: Vec::new(), records: Vec::new() }
    }

    /// The position of the transaction in flight with id `h`, if any.
    fn find_pending(&self, h: &String) -> (r: Option<usize>)
        ensures
            r is Some ==> r->Some_0 < self.pending@.len() && self.pending@[r->Some_0 as int].tx_hash@ == h@,
            r is None ==> !self@.is_pending(h@),
    {
        let mut i: usize = 0;
        while i < self.pending.len()
            invariant
                i <= self.pending@.len(),
                forall|k: int| 0 <= k < i ==> (#[trigger] self.pending@[k]).tx_hash@ != h@,
            decreases self.pending@.len() - i,
        {
            if self.pending[i].tx_hash == *h {
                return Some(i);
            }
            i = i + 1;
        }
        None
    }

    /// Whether a record with id `h` was written.
    fn has_record(&self, h: &String) -> (r: bool)
        ensures
            r == self@.is_recorded(h@),
    {
        let mut j: usize = 0;
        while j < self.records.len()
            invariant
                j <= self.records@.len(),
                forall|k: int| 0 <= k < j ==> (#[trigger] self.records@[k]).tx_hash@ != h@,
            decreases self.records@.len() - j,
        {
            if self.records[j].tx_hash == *h {
                return true;
            }
            j = j + 1;
        }
        false
    }

    /// Takes a submitted transaction; returns it when its receipt is to be
    /// looked up. Once cancelled, and for an empty id or one already taken,
    /// nothing is looked up and nothing changes.
    pub fn on_submit(&mut self, tx: PendingTx) -> (r: Option<PendingTx>)
        requires
            old(self)@.wf(),
        ensures
            final(self)@.wf(),
            final(self)@ == old(self)@.step(CollectorOp::Submit(tx)),
            r is Some <==> old(self)@.accepts(tx),
            r is Some ==> r == Some(tx),
    {
        if self.cancelled || tx.tx_hash.as_str().is_empty() {
            proof {
                if !self.cancelled {
                    assert(tx.tx_hash@.len() == 0);
                }
            }
            return None;
        }
        if self.find_pending(&tx.tx_hash).is_some() || self.has_record(&tx.tx_hash) {
            return None;
        }
        let kept = PendingTx { tx_hash: tx.tx_hash.clone(), start_ms: tx.start_ms };
        self.pending.push(kept);
        proof {
            let m = self@;
            assert(m.pending[m.pending.len() - 1] == tx);
            assert forall|i: int, k: int| 0 <= i < k < m.pending.len() implies
                (#[trigger] m.pending[i]).tx_hash@ != (#[trigger] m.pending[k]).tx_hash@ by {
                if k == m.pending.len() - 1 {
                    assert(old(self)@.pending[i] == m.pending[i]);
                }
            }
            assert forall|i: int, j: int| 0 <= i < m.pending.len() && 0 <= j < m.records.len() implies
                (#[trigger] m.pending[i]).tx_hash@ != (#[trigger] m.records[j]).tx_hash@ by {
                if i == m.pending.len() - 1 {
                    assert(old(self)@.records[j] == m.records[j]);
                }
            }
        }
        Some(tx)
    }

    /// Writes the record of the transaction in flight with id `tx_hash`, and
    /// returns true; returns false, and writes nothing, when no lookup of
    /// that id is in flight.
    pub fn on_receipt(&mut self, tx_hash: &String, outcome: Outcome) -> (r: bool)
        requires
            old(self)@.wf(),
        ensures
            final(self)@.wf(),
            final(self)@ == old(self)@.step(CollectorOp::Receipt(tx_hash@, outcome)),
            r == old(self)@.is_pending(tx_hash@),
    {
        let i = match self.find_pending(tx_hash) {
            Some(i) => i,
            None => {
                return false;
            },
        };
        proof {
            let m = self@;
            let c = m.pending_index(tx_hash@);
            assert(m.pending[i as int].tx_hash@ == tx_hash@);
            assert(c == i as int) by {
                if c < i as int {
                    assert(m.pending[c].tx_hash@ != m.pending[i as int].tx_hash@);
                } else if c > i as int {
                    assert(m.pending[i as int].tx_hash@ != m.pending[c].tx_hash@);
                }
            }
        }
        let tx = self.pending.remove(i);
        let record = match outcome {
            Outcome::Confirmed { end_ms, success } => RunRecord {
                tx_hash: tx.tx_hash,
                start_ms: tx.start_ms,
                end_ms: Some(end_ms),
                success,
                error: None,
            },
            Outcome::LookupFailed { error } => RunRecord {
                tx_hash: tx.tx_hash,
                start_ms: tx.start_ms,
                end_ms: None,
                success: false,
                error: Some(error),
            },
        };
        self.records.push(record);
        proof {
            let o = old(self)@;
            let m = self@;
            assert(m.pending == o.pending.remove(i as int));
            assert(m.records[m.records.len() - 1].tx_hash@ == tx_hash@);
            assert forall|a: int, k: int| 0 <= a < k < m.pending.len() implies
                (#[trigger] m.pending[a]).tx_hash@ != (#[trigger] m.pending[k]).tx_hash@ by {
                let a2 = if a < i as int { a } else { a + 1 };
                let k2 = if k < i as int { k } else { k + 1 };
                assert(m.pending[a] == o.pending[a2]);
                assert(m.pending[k] == o.pending[k2]);
            }
            assert forall|j: int, k: int| 0 <= j < k < m.records.len() implies
                (#[trigger] m.records[j]).tx_hash@ != (#[trigger] m.records[k]).tx_hash@ by {
                if k == m.records.len() - 1 {
                    assert(o.pending[i as int].tx_hash@ != o.records[j].tx_hash@);
                }
            }
            assert forall|a: int, j: int| 0 <= a < m.pending.len() && 0 <= j < m.records.len() implies
                (#[trigger] m.pending[a]).tx_hash@ != (#[trigger] m.records[j]).tx_hash@ by {
                let a2 = if a < i as int { a } else { a + 1 };
                assert(m.pending[a] == o.pending[a2]);
                if j == m.records.len() - 1 {
                    assert(o.pending[a2].tx_hash@ != o.pending[i as int].tx_hash@ || a2 == i as int);
                    if a2 < i as int {
                        assert(o.pending[a2].tx_hash@ != o.pending[i as int].tx_hash@);
                    } else {
                        assert(o.pending[i as int].tx_hash@ != o.pending[a2].tx_hash@);
                    }
                }
            }
            assert forall|a: int| 0 <= a < m.pending.len() implies (#[trigger] m.pending[a]).tx_hash@.len() > 0 by {
                let a2 = if a < i as int { a } else { a + 1 };
                assert(m.pending[a] == o.pending[a2]);
            }
        }
        true
    }

    /// Stops new lookups; the records written and the lookups in flight stay.
    pub fn cancel(&mut self)
        ensures
            final(self)@ == old(self)@.step(CollectorOp::Cancel),
            final(self).cancelled,
            final(self).pending@ == old(self).pending@,
            final(self).records@ == old(self).records@,
    {
        self.cancelled = true;
    }

    /// Cancelled, with every accepted lookup written.
    pub fn is_quiesced(&self) -> (r: bool)
        ensures
            r == (self.cancelled && self.pending@.len() == 0),
    {
        self.cancelled && self.pending.len() == 0
    }

    pub fn in_flight(&self) -> (r: usize)
        ensures
            r == self.pending@.len(),
    {
        self.pending.len()
    }

    pub fn record_count(&self) -> (r: usize)
        ensures
            r == self.records@.len(),
    {
        self.records.len()
    }
}

impl Callback {
    /// Hands a submitted transaction to the collector; returns it when its
    /// receipt is to be looked up.
    pub fn on_submit(&mut self, tx: PendingTx) -> (r: Option<PendingTx>)
        requires
            match *old(self) {
                Callback::Log(c) => c@.wf(),
                Callback::Nil => true,
            },
        ensures
            match (*old(self), *final(self)) {
                (Callback::Nil, Callback::Nil) => r is None,
                (Callback::Log(a), Callback::Log(b)) => {
                    &&& b@.wf()
                    &&& b@ == a@.step(CollectorOp::Submit(tx))
                    &&& (r is Some <==> a@.accepts(tx))
                    &&& (r is Some ==> r == Some(tx))
                },
                _ => false,
            },
    {
        match self {
            Callback::Nil => None,
            Callback::Log(c) => c.on_submit(tx),
        }
    }
}

proof fn lemma_step_wf(m: LogModel, op: CollectorOp)
    requires
        m.wf(),
    ensures
        m.step(op).wf(),
        m.step(op).records.len() + m.step(op).pending.len() == m.records.len() + m.pending.len()
            + (match op { CollectorOp::Submit(tx) => if m.accepts(tx) { 1int } else { 0int }, _ => 0int }),
        m.step(op).records.subrange(0, m.records.len() as int) == m.records,
        m.cancelled ==> m.step(op).cancelled,
{
    let n = m.step(op);
    match op {
        CollectorOp::Submit(tx) => {
            if m.accepts(tx) {
                assert(n.pending[n.pending.len() - 1] == tx);
                assert forall|i: int, k: int| 0 <= i < k < n.pending.len() implies
                    (#[trigger] n.pending[i]).tx_hash@ != (#[trigger] n.pending[k]).tx_hash@ by {
                    if k == n.pending.len() - 1 {
                        assert(m.pending[i] == n.pending[i]);
                    }
                }
                assert forall|i: int, j: int| 0 <= i < n.pending.len() && 0 <= j < n.records.len() implies
                    (#[trigger] n.pending[i]).tx_hash@ != (#[trigger] n.records[j]).tx_hash@ by {
                    if i == n.pending.len() - 1 {
                        assert(m.records[j] == n.records[j]);
                    }
                }
            }
            assert(n.records == m.records);
        },
        CollectorOp::Receipt(h, outcome) => {
            if m.is_pending(h) {
                let i = m.pending_index(h);
                assert forall|a: int, k: int| 0 <= a < k < n.pending.len() implies
                    (#[trigger] n.pending[a]).tx_hash@ != (#[trigger] n.pending[k]).tx_hash@ by {
                    let a2 = if a < i { a } else { a + 1 };
                    let k2 = if k < i { k } else { k + 1 };
                    assert(n.pending[a] == m.pending[a2]);
                    assert(n.pending[k] == m.pending[k2]);
                }
                assert forall|j: int, k: int| 0 <= j < k < n.records.len() implies
                    (#[trigger] n.records[j]).tx_hash@ != (#[trigger] n.records[k]).tx_hash@ by {
                    if k == n.records.len() - 1 {
                        assert(m.pending[i].tx_hash@ != m.records[j].tx_hash@);
                    }
                }
                assert forall|a: int, j: int| 0 <= a < n.pending.len() && 0 <= j < n.records.len() implies
                    (#[trigger] n.pending[a]).tx_hash@ != (#[trigger] n.records[j]).tx_hash@ by {
                    let a2 = if a < i { a } else { a + 1 };
                    assert(n.pending[a] == m.pending[a2]);
                    if j == n.records.len() - 1 {
                        if a2 < i {
                            assert(m.pending[a2].tx_hash@ != m.pending[i].tx_hash@);
                        } else {
                            assert(m.pending[i].tx_hash@ != m.pending[a2].tx_hash@);
                        }
                    }
                }
                assert forall|a: int| 0 <= a < n.pending.len() implies (#[trigger] n.pending[a]).tx_hash@.len() > 0 by {
                    let a2 = if a < i { a } else { a + 1 };
                    assert(n.pending[a] == m.pending[a2]);
                }
                assert forall|j: int| 0 <= j < n.records.len() implies (#[trigger] n.records[j]).tx_hash@.len() > 0 by {
                    if j == n.records.len() - 1 {
                        assert(m.pending[i].tx_hash@.len() > 0);
                    }
                }
            }
            assert(n.records.subrange(0, m.records.len() as int) =~= m.records);
        },
        CollectorOp::Cancel => {
            assert(n.records.subrange(0, m.records.len() as int) =~= m.records);
        },
    }
}

/// Whatever is asked of a collector, every id it holds stays non-empty and
/// appears once, and no accepted transaction is lost or duplicated: records
/// written plus lookups in flight grow by exactly the lookups started, and
/// the records already written stay in place.
pub proof fn lemma_records_neither_lost_nor_duplicated(m: LogModel, ops: Seq<CollectorOp>)
    requires
        m.wf(),
    ensures
        apply_ops(m, ops).wf(),
        apply_ops(m, ops).records.len() + apply_ops(m, ops).pending.len()
            == m.records.len() + m.pending.len() + lookups_started(m, ops),
        m.records.len() <= apply_ops(m, ops).records.len(),
        apply_ops(m, ops).records.subrange(0, m.records.len() as int) == m.records,
    decreases ops.len(),
{
    if ops.len() > 0 {
        let n = m.step(ops[0]);
        lemma_step_wf(m, ops[0]);
        lemma_records_neither_lost_nor_duplicated(n, ops.drop_first());
        let last = apply_ops(n, ops.drop_first()).records;
        assert(last.subrange(0, m.records.len() as int) =~= last.subrange(0, n.records.len() as int).subrange(0, m.records.len() as int));
    }
}

/// Once a collector is cancelled, whatever is asked of it next starts no
/// lookup, it stays cancelled, and every record already written stays in
/// place: later records only follow them.
pub proof fn lemma_cancel_stops_lookups_keeps_records(m: LogModel, ops: Seq<CollectorOp>)
    requires
        m.wf(),
        m.cancelled,
    ensures
        lookups_started(m, ops) == 0,
        apply_ops(m, ops).cancelled,
        m.records.len() <= apply_ops(m, ops).records.len(),
        apply_ops(m, ops).records.subrange(0, m.records.len() as int) == m.records,
    decreases ops.len(),
{
    lemma_records_neither_lost_nor_duplicated(m, ops);
    if ops.len() > 0 {
        let n = m.step(ops[0]);
        lemma_step_wf(m, ops[0]);
        lemma_cancel_stops_lookups_keeps_records(n, ops.drop_first());
    }
}

} // verus!
