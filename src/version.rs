use vstd::prelude::*;

use crate::anchor::{visibility_of, Anchor, Snapshot, TransactionAnchor, Visibility, INVALID_CLOCK};
use crate::error::Error;

verus! {

/// Who holds a version cell.
#[derive(Clone, Copy, Debug, PartialEq, Eq, Structural)]
pub enum Owner {
    Free,
    /// The journal whose anchor stands at this index.
    Journal(usize),
}

/// Concurrency-control metadata of one record version: a write-once time point and
/// at most one owning journal.
#[derive(Clone, Copy, Debug, PartialEq, Eq, Structural)]
pub struct VersionCell {
    /// Identity of the cell: its position in the storage.
    pub id: usize,
    pub owner: Owner,
    /// When the version was created or deleted; `INVALID_CLOCK` until then.
    pub time_point: u64,
}

/// Proof of ownership of a version cell, released explicitly with a final clock.
#[derive(Debug)]
pub struct VersionLocker {
    cell: usize,
    anchor: usize,
    prev_owner: Owner,
}

/// What a lock attempt decides.
#[derive(Clone, Copy, Debug, PartialEq, Eq, Structural)]
pub enum LockDecision {
    /// The requester takes the cell; the owner it replaces is recorded.
    Take(Owner),
    Refuse(Error),
    /// The owning journal's transaction is still open: block on that anchor and retry.
    Wait(usize),
}

/// The result of a lock attempt.
#[derive(Debug)]
pub enum LockOutcome {
    Acquired(VersionLocker),
    Refused(Error),
    /// Block on the anchor at this index, then try again.
    Blocked(usize),
}

/// The answer of the reader predicate.
#[derive(Clone, Copy, Debug, PartialEq, Eq, Structural)]
pub enum PredateOutcome {
    Decided(bool),
    /// The owner's transaction is committing: block on the anchor at this index and ask again.
    Blocked(usize),
}

/// Every anchor names an existing transaction.
pub open spec fn anchors_wf(anchors: Seq<Anchor>, transactions: Seq<TransactionAnchor>) -> bool {
    forall|i: int| 0 <= i < anchors.len() ==> (#[trigger] anchors[i]).transaction < transactions.len()
}

impl VersionLocker {
    pub closed spec fn cell_spec(&self) -> usize {
        self.cell
    }

    pub closed spec fn anchor_spec(&self) -> usize {
        self.anchor
    }

    pub closed spec fn prev_owner_spec(&self) -> Owner {
        self.prev_owner
    }

    /// The cell this locker holds.
    pub fn cell(&self) -> (r: usize)
        ensures
            r == self.cell_spec(),
    {
        self.cell
    }

    /// Releases the cell: publishes `clock` as its time point when `clock` is valid and
    /// the cell has none yet, then hands ownership back to the previous owner if this
    /// locker's journal still owns the cell.
    pub fn release(self, cell: &mut VersionCell, clock: u64)
        requires
            old(cell).id == self.cell_spec(),
        ensures
            *final(cell) == release_spec(*old(cell), self.anchor_spec(), self.prev_owner_spec(), clock),
    {
        if clock != INVALID_CLOCK && cell.time_point == INVALID_CLOCK {
            cell.time_point = clock;
        }
        if cell.owner == Owner::Journal(self.anchor) {
            cell.owner = self.prev_owner;
        }
    }
}

/// The cell after a release by the journal at `anchor` with the given final clock.
pub open spec fn release_spec(cell: VersionCell, anchor: usize, prev: Owner, clock: u64) -> VersionCell {
    VersionCell {
        id: cell.id,
        owner: if cell.owner == Owner::Journal(anchor) { prev } else { cell.owner },
        time_point: if clock != INVALID_CLOCK && cell.time_point == INVALID_CLOCK {
            clock
        } else {
            cell.time_point
        },
    }
}

impl VersionCell {
    /// The owner, if a journal, names an existing anchor.
    pub open spec fn owner_wf(self, n_anchors: nat) -> bool {
        match self.owner {
            Owner::Free => true,
            Owner::Journal(o) => o < n_anchors,
        }
    }

    /// The decision of a lock attempt by the journal whose anchor is `a`.
    pub open spec fn lock_decision(
        self,
        anchors: Seq<Anchor>,
        transactions: Seq<TransactionAnchor>,
        a: usize,
    ) -> LockDecision {
        if self.time_point != INVALID_CLOCK {
            LockDecision::Refuse(Error::Conflict)
        } else {
            match self.owner {
                Owner::Free => LockDecision::Take(Owner::Free),
                Owner::Journal(o) => {
                    if o == a {
                        LockDecision::Refuse(Error::Conflict)
                    } else if anchors[o as int].transaction == anchors[a as int].transaction {
                        if anchors[o as int].submit_clock <= anchors[a as int].creation_clock {
                            LockDecision::Take(Owner::Journal(o))
                        } else {
                            LockDecision::Refuse(Error::Deadlock)
                        }
                    } else {
                        let t = transactions[anchors[o as int].transaction as int];
                        if !t.is_decided() {
                            LockDecision::Wait(o)
                        } else if t.is_rolled_back() {
                            LockDecision::Take(Owner::Free)
                        } else {
                            LockDecision::Refuse(Error::Conflict)
                        }
                    }
                },
            }
        }
    }

    /// The reader predicate: whether this version predates `snapshot`.
    pub open spec fn predate_spec(
        self,
        snapshot: Snapshot,
        anchors: Seq<Anchor>,
        transactions: Seq<TransactionAnchor>,
    ) -> PredateOutcome {
        if self.time_point != INVALID_CLOCK {
            PredateOutcome::Decided(self.time_point <= snapshot.clock)
        } else {
            match self.owner {
                Owner::Free => PredateOutcome::Decided(false),
                Owner::Journal(o) => {
                    let anchor = anchors[o as int];
                    if snapshot.transaction.is_some() && anchor.predate_spec(
                        o,
                        snapshot.transaction.unwrap(),
                        snapshot.transaction_clock,
                        snapshot.journal,
                    ) {
                        PredateOutcome::Decided(true)
                    } else {
                        match visibility_of(transactions[anchor.transaction as int], snapshot.clock) {
                            Visibility::Decided(b) => PredateOutcome::Decided(b),
                            Visibility::Pending => PredateOutcome::Blocked(o),
                        }
                    }
                },
            }
        }
    }

    /// A cell with no time point and no owner: invisible to every reader.
    pub fn new(id: usize) -> (r: VersionCell)
        ensures
            r.id == id,
            r.owner == Owner::Free,
            r.time_point == INVALID_CLOCK,
    {
        VersionCell { id, owner: Owner::Free, time_point: INVALID_CLOCK }
    }

    /// The cell's identity.
    pub fn id(&self) -> (r: usize)
        ensures
            r == self.id,
    {
        self.id
    }

    /// One lock attempt by the journal whose anchor is `a`.
    ///
    /// The cell is taken iff it has no time point and is free, held by a journal of the
    /// same transaction that was submitted no later than `a` was created, or held by a
    /// journal whose transaction was rolled back. A lock already held by `a`, or on a
    /// cell with a time point, is refused as a conflict; one held by an unsubmitted
    /// journal of the same transaction is refused as a deadlock; one held by an open
    /// transaction blocks on that owner.
    pub fn lock(
        &mut self,
        a: usize,
        anchors: &Vec<Anchor>,
        transactions: &Vec<TransactionAnchor>,
    ) -> (r: LockOutcome)
        requires
            a < anchors.len(),
            anchors_wf(anchors@, transactions@),
            old(self).owner_wf(anchors.len() as nat),
        ensures
            final(self).id == old(self).id,
            final(self).time_point == old(self).time_point,
            final(self).owner_wf(anchors.len() as nat),
            match old(self).lock_decision(anchors@, transactions@, a) {
                LockDecision::Take(prev) => {
                    &&& r matches LockOutcome::Acquired(l)
                    &&& l.cell_spec() == old(self).id
                    &&& l.anchor_spec() == a
                    &&& l.prev_owner_spec() == prev
                    &&& final(self).owner == Owner::Journal(a)
                },
                LockDecision::Refuse(e) => r == LockOutcome::Refused(e) && *final(self) == *old(self),
                LockDecision::Wait(o) => r == LockOutcome::Blocked(o) && *final(self) == *old(self),
            },
    {
        if self.time_point != INVALID_CLOCK {
            return LockOutcome::Refused(Error::Conflict);
        }
        let prev = match self.owner {
            Owner::Free => Owner::Free,
            Owner::Journal(o) => {
                if o == a {
                    return LockOutcome::Refused(Error::Conflict);
                }
                let (same_transaction, transferable) = anchors[o].lockable(&anchors[a]);
                if same_transaction {
                    if !transferable {
                        return LockOutcome::Refused(Error::Deadlock);
                    }
                    Owner::Journal(o)
                } else {
                    match anchors[o].wait(&transactions[anchors[o].transaction]) {
                        None => {
                            return LockOutcome::Blocked(o);
                        },
                        Some(final_snapshot) => {
                            if final_snapshot != INVALID_CLOCK {
                                return LockOutcome::Refused(Error::Conflict);
                            }
                            Owner::Free
                        },
                    }
                }
            },
        };
        self.owner = Owner::Journal(a);
        LockOutcome::Acquired(VersionLocker { cell: self.id, anchor: a, prev_owner: prev })
    }

    /// Whether this version predates `snapshot`, or which anchor the reader must wait on.
    pub fn predate(
        &self,
        snapshot: &Snapshot,
        anchors: &Vec<Anchor>,
        transactions: &Vec<TransactionAnchor>,
    ) -> (r: PredateOutcome)
        requires
            anchors_wf(anchors@, transactions@),
            self.owner_wf(anchors.len() as nat),
        ensures
            r == self.predate_spec(*snapshot, anchors@, transactions@),
    {
        if self.time_point != INVALID_CLOCK {
            return PredateOutcome::Decided(self.time_point <= snapshot.clock);
        }
        match self.owner {
            Owner::Free => PredateOutcome::Decided(false),
            Owner::Journal(o) => {
                let anchor = &anchors[o];
                if let Some(t) = snapshot.transaction {
                    if anchor.predate(o, t, snapshot.transaction_clock, snapshot.journal) {
                        return PredateOutcome::Decided(true);
                    }
                }
                match anchor.visible(&transactions[anchor.transaction], snapshot.clock) {
                    Visibility::Decided(b) => PredateOutcome::Decided(b),
                    Visibility::Pending => PredateOutcome::Blocked(o),
                }
            },
        }
    }
}

/// Exclusive ownership: once the journal at `a` has taken a cell, another journal `b`
/// takes it from `a` only by a permitted hand-over: `a` belongs to the same transaction
/// and was submitted no later than `b` was created, or `a`'s transaction was rolled back.
pub proof fn lemma_lock_exclusive(
    cell: VersionCell,
    anchors: Seq<Anchor>,
    transactions: Seq<TransactionAnchor>,
    a: usize,
    b: usize,
)
    requires
        a < anchors.len(),
        b < anchors.len(),
        anchors_wf(anchors, transactions),
        cell.lock_decision(anchors, transactions, a) matches LockDecision::Take(_),
    ensures
        ({
            let held = VersionCell { owner: Owner::Journal(a), ..cell };
            held.lock_decision(anchors, transactions, b) matches LockDecision::Take(_) ==> {
                ||| anchors[a as int].lockable_spec(anchors[b as int]) == (true, true)
                ||| transactions[anchors[a as int].transaction as int].is_rolled_back()
            }
        }),
{
}

/// A released time point is pinned: after `lock` by `a` and `release` with a valid
/// clock, every later lock attempt on the cell is refused as a conflict.
pub proof fn lemma_release_pins(
    cell: VersionCell,
    anchors: Seq<Anchor>,
    transactions: Seq<TransactionAnchor>,
    a: usize,
    next: usize,
    clock: u64,
)
    requires
        cell.lock_decision(anchors, transactions, a) matches LockDecision::Take(_),
        clock != INVALID_CLOCK,
    ensures
        ({
            let prev = cell.lock_decision(anchors, transactions, a)->Take_0;
            let held = VersionCell { owner: Owner::Journal(a), ..cell };
            release_spec(held, a, prev, clock).lock_decision(anchors, transactions, next)
                == LockDecision::Refuse(Error::Conflict)
        }),
{
}

/// A version with a time point is visible to every snapshot whose clock is at least
/// that time point, whoever holds the cell.
pub proof fn lemma_time_point_visible(
    cell: VersionCell,
    snapshot: Snapshot,
    anchors: Seq<Anchor>,
    transactions: Seq<TransactionAnchor>,
)
    requires
        cell.time_point != INVALID_CLOCK,
        cell.time_point <= snapshot.clock,
    ensures
        cell.predate_spec(snapshot, anchors, transactions) == PredateOutcome::Decided(true),
{
}

/// A rolled-back version is invisible: a cell with no time point, free or held by a
/// journal of a rolled-back transaction, predates no snapshot taken outside that
/// transaction.
pub proof fn lemma_rolled_back_invisible(
    cell: VersionCell,
    snapshot: Snapshot,
    anchors: Seq<Anchor>,
    transactions: Seq<TransactionAnchor>,
)
    requires
        anchors_wf(anchors, transactions),
        cell.owner_wf(anchors.len() as nat),
        cell.time_point == INVALID_CLOCK,
        match cell.owner {
            Owner::Free => true,
            Owner::Journal(o) => {
                &&& transactions[anchors[o as int].transaction as int].is_rolled_back()
                &&& snapshot.transaction != Some(anchors[o as int].transaction)
            },
        },
    ensures
        cell.predate_spec(snapshot, anchors, transactions) == PredateOutcome::Decided(false),
{
}

} // verus!
