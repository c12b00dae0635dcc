use vstd::prelude::*;

verus! {

/// The clock value that stands for "no time point yet".
pub const INVALID_CLOCK: u64 = 0xffff_ffff_ffff_ffff;

/// The pre-genesis clock value: a snapshot or commit that has not happened yet.
pub const DEFAULT_CLOCK: u64 = 0;

/// The submit clock of a journal that has not been submitted.
pub const UNSUBMITTED: u64 = 0xffff_ffff_ffff_ffff;

/// Lifecycle record of a transaction, shared by every journal anchor it produced.
///
/// `final_snapshot` is `DEFAULT_CLOCK` while the outcome is open, `INVALID_CLOCK`
/// once the transaction was rolled back, and the commit clock once it committed.
#[derive(Clone, Copy, Debug, PartialEq, Eq, Structural)]
pub struct TransactionAnchor {
    pub preliminary_snapshot: u64,
    pub final_snapshot: u64,
}

/// Lifecycle record of a journal; version cells that the journal locked point to it.
#[derive(Clone, Copy, Debug, PartialEq, Eq, Structural)]
pub struct Anchor {
    /// Index of the transaction that produced the journal.
    pub transaction: usize,
    /// The transaction-local clock when the journal started.
    pub creation_clock: u64,
    /// The transaction-local clock at submit; `UNSUBMITTED` before.
    pub submit_clock: u64,
}

/// What a reader learns from a transaction anchor at a given snapshot clock.
#[derive(Clone, Copy, Debug, PartialEq, Eq, Structural)]
pub enum Visibility {
    /// The outcome is settled for this reader: visible or not.
    Decided(bool),
    /// The transaction is between pre-commit and its final snapshot: the reader must
    /// wait on the anchor and ask again.
    Pending,
}

/// A reader's view: a clock, and for a writer the transaction-local perspective.
#[derive(Clone, Copy, Debug, PartialEq, Eq, Structural)]
pub struct Snapshot {
    pub clock: u64,
    /// The transaction the snapshot belongs to, if any.
    pub transaction: Option<usize>,
    /// The transaction-local clock when the snapshot was taken.
    pub transaction_clock: u64,
    /// The journal anchor whose own uncommitted changes the snapshot includes, if any.
    pub journal: Option<usize>,
}

impl TransactionAnchor {
    pub open spec fn is_decided(self) -> bool {
        self.final_snapshot != DEFAULT_CLOCK
    }

    pub open spec fn is_rolled_back(self) -> bool {
        self.final_snapshot == INVALID_CLOCK
    }

    pub open spec fn is_committed(self) -> bool {
        self.final_snapshot != DEFAULT_CLOCK && self.final_snapshot != INVALID_CLOCK
    }

    /// A transaction anchor for a transaction that just started.
    pub fn new() -> (r: TransactionAnchor)
        ensures
            r.preliminary_snapshot == DEFAULT_CLOCK,
            r.final_snapshot == DEFAULT_CLOCK,
    {
        TransactionAnchor { preliminary_snapshot: DEFAULT_CLOCK, final_snapshot: DEFAULT_CLOCK }
    }
}

/// Whether a transaction's changes are visible to a reader at `clock`.
pub open spec fn visibility_of(t: TransactionAnchor, clock: u64) -> Visibility {
    if t.preliminary_snapshot == DEFAULT_CLOCK || t.preliminary_snapshot >= clock {
        Visibility::Decided(false)
    } else if t.final_snapshot == DEFAULT_CLOCK {
        Visibility::Pending
    } else {
        Visibility::Decided(t.is_committed() && t.final_snapshot <= clock)
    }
}

impl Anchor {
    pub open spec fn is_submitted(self) -> bool {
        self.submit_clock != UNSUBMITTED
    }

    /// `(same transaction, lock transferable from self to other)`.
    pub open spec fn lockable_spec(self, other: Anchor) -> (bool, bool) {
        if self.transaction != other.transaction {
            (false, false)
        } else {
            (true, self.submit_clock <= other.creation_clock)
        }
    }

    pub open spec fn predate_spec(
        self,
        index: usize,
        transaction: usize,
        transaction_clock: u64,
        journal: Option<usize>,
    ) -> bool {
        self.transaction == transaction && ((self.is_submitted() && self.submit_clock
            <= transaction_clock) || journal == Some(index))
    }

    /// An anchor for a journal that starts at the transaction-local `creation_clock`.
    pub fn new(transaction: usize, creation_clock: u64) -> (r: Anchor)
        ensures
            r.transaction == transaction,
            r.creation_clock == creation_clock,
            r.submit_clock == UNSUBMITTED,
    {
        Anchor { transaction, creation_clock, submit_clock: UNSUBMITTED }
    }

    /// Whether a lock held by this journal can pass to the journal of `other`.
    ///
    /// Returns `(same_transaction, transferable)`: journals of different transactions
    /// never transfer; within a transaction, a lock passes only once this journal was
    /// submitted no later than `other` was created.
    pub fn lockable(&self, other: &Anchor) -> (r: (bool, bool))
        ensures
            r == self.lockable_spec(*other),
    {
        if self.transaction != other.transaction {
            return (false, false);
        }
        (true, self.submit_clock <= other.creation_clock)
    }

    /// Whether this journal's work (the anchor at position `index`) is visible from the
    /// perspective of `transaction` at its local clock `transaction_clock`, where
    /// `journal` is the anchor of the reading journal, if any.
    pub fn predate(
        &self,
        index: usize,
        transaction: usize,
        transaction_clock: u64,
        journal: Option<usize>,
    ) -> (r: bool)
        ensures
            r == self.predate_spec(index, transaction, transaction_clock, journal),
    {
        if self.transaction != transaction {
            return false;
        }
        if self.submit_clock != UNSUBMITTED && self.submit_clock <= transaction_clock {
            return true;
        }
        match journal {
            Some(j) => j == index,
            None => false,
        }
    }

    /// The submit-time clock value (`UNSUBMITTED` before submit).
    pub fn submit_clock(&self) -> (r: u64)
        ensures
            r == self.submit_clock,
    {
        self.submit_clock
    }

    /// The final snapshot of this journal's transaction `transaction_anchor`, once it
    /// is decided; `None` tells the caller to block on the anchor and ask again.
    pub fn wait(&self, transaction_anchor: &TransactionAnchor) -> (r: Option<u64>)
        ensures
            r == (if transaction_anchor.is_decided() {
                Some(transaction_anchor.final_snapshot)
            } else {
                None::<u64>
            }),
    {
        if transaction_anchor.final_snapshot == DEFAULT_CLOCK {
            None
        } else {
            Some(transaction_anchor.final_snapshot)
        }
    }

    /// Whether the changes of this journal's transaction `transaction_anchor` are
    /// visible to a reader at `clock`.
    pub fn visible(&self, transaction_anchor: &TransactionAnchor, clock: u64) -> (r: Visibility)
        ensures
            r == visibility_of(*transaction_anchor, clock),
    {
        if transaction_anchor.preliminary_snapshot == DEFAULT_CLOCK
            || transaction_anchor.preliminary_snapshot >= clock {
            return Visibility::Decided(false);
        }
        if transaction_anchor.final_snapshot == DEFAULT_CLOCK {
            return Visibility::Pending;
        }
        let f = transaction_anchor.final_snapshot;
        Visibility::Decided(f != INVALID_CLOCK && f <= clock)
    }
}

} // verus!
