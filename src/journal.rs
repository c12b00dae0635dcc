use vstd::prelude::*;

use crate::anchor::{
    Anchor, Snapshot, TransactionAnchor, DEFAULT_CLOCK, INVALID_CLOCK, UNSUBMITTED,
};
use crate::error::Error;
use crate::version::{
    anchors_wf, lemma_rolled_back_invisible, release_spec, LockDecision, LockOutcome, Owner, PredateOutcome, VersionCell, VersionLocker,
};

verus! {

/// The shared state of the lock table: version cells, journal anchors and transactions,
/// each identified by its position. Every method is one atomic step of the protocol;
/// where the protocol blocks, the step reports the anchor to wait on.
pub struct Storage {
    pub cells: Vec<VersionCell>,
    pub anchors: Vec<Anchor>,
    pub transaction_anchors: Vec<TransactionAnchor>,
    /// Transaction-local clock of each transaction.
    pub clocks: Vec<u64>,
    /// Lockers of the submitted journals of each transaction, in submit order.
    pub records: Vec<Vec<VersionLocker>>,
}

/// A writer's accumulator of acquired locks within one step of a transaction.
pub struct Journal {
    transaction: usize,
    anchor: usize,
    records: Vec<VersionLocker>,
}

/// Whether a lock request went through.
#[derive(Clone, Copy, Debug, PartialEq, Eq, Structural)]
pub enum Progress {
    Done,
    /// The cell is held by an open transaction: block on the anchor at this index and retry.
    Blocked(usize),
}

/// A locker names an existing cell and anchor, and its previous owner is an existing anchor.
pub open spec fn locker_wf(l: VersionLocker, n_cells: nat, n_anchors: nat) -> bool {
    &&& l.cell_spec() < n_cells
    &&& l.anchor_spec() < n_anchors
    &&& match l.prev_owner_spec() {
        Owner::Free => true,
        Owner::Journal(o) => o < n_anchors,
    }
}

/// The cells held by a list of lockers, in order.
pub open spec fn cells_of(lockers: Seq<VersionLocker>) -> Seq<usize> {
    lockers.map_values(|l: VersionLocker| l.cell_spec())
}

/// No step rewrites a time point once it is set.
pub open spec fn time_points_kept(before: Seq<VersionCell>, after: Seq<VersionCell>) -> bool {
    &&& after.len() >= before.len()
    &&& forall|c: int|
        0 <= c < before.len() && (#[trigger] before[c]).time_point != INVALID_CLOCK
            ==> after[c].time_point == before[c].time_point
}

/// The time point that a release with `clock` leaves on a cell that had `before`.
pub open spec fn stamped(before: u64, clock: u64) -> u64 {
    if before == INVALID_CLOCK { clock } else { before }
}

/// The cells after `lockers` are released with `clock`, the last locker first.
pub open spec fn released(cells: Seq<VersionCell>, lockers: Seq<VersionLocker>, clock: u64) -> Seq<
    VersionCell,
>
    decreases lockers.len(),
{
    if lockers.len() == 0 {
        cells
    } else {
        let l = lockers.last();
        let c = l.cell_spec() as int;
        released(
            cells.update(c, release_spec(cells[c], l.anchor_spec(), l.prev_owner_spec(), clock)),
            lockers.drop_last(),
            clock,
        )
    }
}

/// The state after transaction `t` committed at `clock`.
pub open spec fn committed(before: Storage, after: Storage, t: usize, clock: u64) -> bool {
    let ta = before.transaction_anchors@[t as int];
    &&& after.transaction_anchors@ == before.transaction_anchors@.update(
        t as int,
        TransactionAnchor {
            preliminary_snapshot: if ta.preliminary_snapshot == DEFAULT_CLOCK {
                clock
            } else {
                ta.preliminary_snapshot
            },
            final_snapshot: clock,
        },
    )
    &&& after.cells.len() == before.cells.len()
    &&& time_points_kept(before.cells@, after.cells@)
    &&& forall|c: int|
        0 <= c < after.cells.len() ==> (#[trigger] after.cells@[c]).time_point
            == before.cells@[c].time_point || after.cells@[c].time_point == clock
    &&& forall|k: int|
        0 <= k < before.locked_cells(t).len() ==> after.cells@[#[trigger] before.locked_cells(t)[k] as int].time_point == stamped(
            before.cells@[before.locked_cells(t)[k] as int].time_point,
            clock,
        )
    &&& forall|c: int|
        0 <= c < after.cells.len() && !before.locked_cells(t).contains(c as usize)
            ==> #[trigger] after.cells@[c] == before.cells@[c]
    &&& after.cells@ == released(before.cells@, before.records_spec()[t as int], clock)
    &&& after.locked_cells(t).len() == 0
    &&& after.anchors == before.anchors
    &&& after.clocks == before.clocks
}

/// The state after transaction `t` was rolled back.
pub open spec fn rolled_back(before: Storage, after: Storage, t: usize) -> bool {
    &&& after.transaction_anchors@ == before.transaction_anchors@.update(
        t as int,
        TransactionAnchor { final_snapshot: INVALID_CLOCK, ..before.transaction_anchors@[t as int] },
    )
    &&& after.cells.len() == before.cells.len()
    &&& forall|c: int|
        0 <= c < after.cells.len() ==> (#[trigger] after.cells@[c]).time_point
            == before.cells@[c].time_point
    &&& forall|c: int|
        0 <= c < after.cells.len() && !before.locked_cells(t).contains(c as usize)
            ==> #[trigger] after.cells@[c] == before.cells@[c]
    &&& after.cells@ == released(before.cells@, before.records_spec()[t as int], INVALID_CLOCK)
    &&& after.locked_cells(t).len() == 0
    &&& after.anchors == before.anchors
    &&& after.clocks == before.clocks
}

impl Storage {
    pub open spec fn records_spec(&self) -> Seq<Seq<VersionLocker>> {
        self.records@.map_values(|v: Vec<VersionLocker>| v@)
    }

    /// The cells locked by the submitted journals of transaction `t`.
    pub open spec fn locked_cells(&self, t: usize) -> Seq<usize> {
        cells_of(self.records_spec()[t as int])
    }

    /// Transaction clocks stay below `UNSUBMITTED`, and no journal was created later
    /// than its transaction's current clock.
    pub open spec fn clocks_wf(&self) -> bool {
        &&& forall|t: int| 0 <= t < self.clocks.len() ==> #[trigger] self.clocks@[t] < UNSUBMITTED
        &&& forall|i: int|
            0 <= i < self.anchors.len() ==> (#[trigger] self.anchors@[i]).creation_clock
                <= self.clocks@[self.anchors@[i].transaction as int]
    }

    pub open spec fn cells_wf(&self) -> bool {
        forall|c: int|
            0 <= c < self.cells.len() ==> (#[trigger] self.cells@[c]).id == c
                && self.cells@[c].owner_wf(self.anchors.len() as nat)
    }

    pub open spec fn wf(&self) -> bool {
        &&& self.clocks.len() == self.transaction_anchors.len()
        &&& self.records_spec().len() == self.transaction_anchors.len()
        &&& anchors_wf(self.anchors@, self.transaction_anchors@)
        &&& self.clocks_wf()
        &&& self.cells_wf()
        &&& forall|t: int, k: int|
            0 <= t < self.records_spec().len() && 0 <= k < self.records_spec()[t].len()
                ==> locker_wf(
                #[trigger] self.records_spec()[t][k],
                self.cells.len() as nat,
                self.anchors.len() as nat,
            )
    }

    /// An empty lock table.
    pub fn new() -> (r: Storage)
        ensures
            r.wf(),
            r.cells@.len() == 0,
            r.anchors@.len() == 0,
            r.transaction_anchors@.len() == 0,
    {
        let r = Storage {
            cells: Vec::new(),
            anchors: Vec::new(),
            transaction_anchors: Vec::new(),
            clocks: Vec::new(),
            records: Vec::new(),
        };
        assert(r.records_spec() =~= Seq::<Seq<VersionLocker>>::empty());
        r
    }

    /// Adds a version cell with no time point and no owner; returns its index.
    pub fn create_cell(&mut self) -> (r: usize)
        requires
            old(self).wf(),
            old(self).cells.len() < usize::MAX,
        ensures
            final(self).wf(),
            r == old(self).cells.len(),
            final(self).cells@ == old(self).cells@.push(VersionCell { id: r, owner: Owner::Free, time_point: INVALID_CLOCK }),
            final(self).anchors == old(self).anchors,
            final(self).transaction_anchors == old(self).transaction_anchors,
            final(self).clocks == old(self).clocks,
            final(self).records_spec() == old(self).records_spec(),
    {
        let r = self.cells.len();
        self.cells.push(VersionCell::new(r));
        r
    }

    /// Starts a transaction: local clock 0, no snapshot taken yet; returns its index.
    pub fn transaction(&mut self) -> (r: usize)
        requires
            old(self).wf(),
            old(self).transaction_anchors.len() < usize::MAX,
        ensures
            final(self).wf(),
            r == old(self).transaction_anchors.len(),
            final(self).transaction_anchors@ == old(self).transaction_anchors@.push(
                TransactionAnchor { preliminary_snapshot: DEFAULT_CLOCK, final_snapshot: DEFAULT_CLOCK },
            ),
            final(self).clocks@ == old(self).clocks@.push(0),
            final(self).locked_cells(r).len() == 0,
            final(self).cells == old(self).cells,
            final(self).anchors == old(self).anchors,
    {
        let r = self.transaction_anchors.len();
        self.transaction_anchors.push(TransactionAnchor::new());
        self.clocks.push(0);
        self.records.push(Vec::new());
        proof {
            assert(self.records_spec() =~= old(self).records_spec().push(Seq::empty()));
            assert forall|t: int, k: int|
                0 <= t < self.records_spec().len() && 0 <= k < self.records_spec()[t].len()
                    implies locker_wf(
                    #[trigger] self.records_spec()[t][k],
                    self.cells.len() as nat,
                    self.anchors.len() as nat,
                ) by {
                assert(t < old(self).records_spec().len());
                assert(self.records_spec()[t] == old(self).records_spec()[t]);
            }
            assert(anchors_wf(self.anchors@, self.transaction_anchors@)) by {
                assert forall|i: int| 0 <= i < self.anchors@.len()
                    implies (#[trigger] self.anchors@[i]).transaction < self.transaction_anchors@.len() by {
                    assert(old(self).anchors@[i].transaction < old(self).transaction_anchors@.len());
                }
            }
        }
        r
    }

    /// Releases every locker of transaction `t` with `clock` and empties its records.
    fn release_records(&mut self, t: usize, clock: u64)
        requires
            old(self).wf(),
            t < old(self).transaction_anchors.len(),
        ensures
            final(self).wf(),
            final(self).cells.len() == old(self).cells.len(),
            time_points_kept(old(self).cells@, final(self).cells@),
            forall|c: int|
                0 <= c < final(self).cells.len() ==> (#[trigger] final(self).cells@[c]).time_point
                    == old(self).cells@[c].time_point || final(self).cells@[c].time_point == clock,
            forall|k: int|
                0 <= k < old(self).locked_cells(t).len() ==> final(self).cells@[#[trigger] old(
                    self,
                ).locked_cells(t)[k] as int].time_point == stamped(
                    old(self).cells@[old(self).locked_cells(t)[k] as int].time_point,
                    clock,
                ),
            forall|c: int|
                0 <= c < final(self).cells.len() && !old(self).locked_cells(t).contains(c as usize)
                    ==> #[trigger] final(self).cells@[c] == old(self).cells@[c],
            final(self).cells@ == released(old(self).cells@, old(self).records_spec()[t as int], clock),
            final(self).locked_cells(t).len() == 0,
            forall|u: usize|
                u != t && u < old(self).transaction_anchors.len() ==> #[trigger] final(self).locked_cells(u)
                    == old(self).locked_cells(u),
            final(self).anchors == old(self).anchors,
            final(self).transaction_anchors == old(self).transaction_anchors,
            final(self).clocks == old(self).clocks,
    {
        let mut taken: Vec<VersionLocker> = Vec::new();
        std::mem::swap(&mut self.records[t], &mut taken);
        let ghost lockers = taken@;
        assert(lockers == old(self).records_spec()[t as int]);
        let n = self.anchors.len();
        release_all(&mut self.cells, taken, clock, n);
        proof {
            assert(cells_of(lockers) == old(self).locked_cells(t));
            assert(self.records_spec() =~= old(self).records_spec().update(t as int, Seq::empty()));
            assert forall|k: int| 0 <= k < old(self).locked_cells(t).len() implies self.cells@[#[trigger] old(
                self,
            ).locked_cells(t)[k] as int].time_point == stamped(
                old(self).cells@[old(self).locked_cells(t)[k] as int].time_point,
                clock,
            ) by {
                assert(old(self).locked_cells(t)[k] == lockers[k].cell_spec());
            }
            assert forall|u: usize| u != t && u < old(self).transaction_anchors.len()
                implies #[trigger] self.locked_cells(u) == old(self).locked_cells(u) by {
                assert(self.records_spec()[u as int] == old(self).records_spec()[u as int]);
            }
            assert(self.locked_cells(t) =~= Seq::<usize>::empty());
            assert forall|u: int, k: int|
                0 <= u < self.records_spec().len() && 0 <= k < self.records_spec()[u].len()
                    implies locker_wf(
                    #[trigger] self.records_spec()[u][k],
                    self.cells.len() as nat,
                    self.anchors.len() as nat,
                ) by {
                assert(self.records_spec()[u][k] == old(self).records_spec()[u][k]);
            }
        }
    }

    /// Publishes the preliminary snapshot `clock` of transaction `t`: from then on,
    /// readers at a later clock wait for its outcome.
    ///
    /// Fails with `UnexpectedState`, changing nothing, when the transaction is already
    /// decided or already has a preliminary snapshot.
    pub fn pre_commit(&mut self, t: usize, clock: u64) -> (r: Result<(), Error>)
        requires
            old(self).wf(),
            t < old(self).transaction_anchors.len(),
            clock != DEFAULT_CLOCK,
            clock != INVALID_CLOCK,
        ensures
            final(self).wf(),
            ({
                let ta = old(self).transaction_anchors@[t as int];
                if ta.is_decided() || ta.preliminary_snapshot != DEFAULT_CLOCK {
                    r == Err::<(), Error>(Error::UnexpectedState) && *final(self) == *old(self)
                } else {
                    &&& r == Ok::<(), Error>(())
                    &&& final(self).transaction_anchors@ == old(self).transaction_anchors@.update(
                        t as int,
                        TransactionAnchor { preliminary_snapshot: clock, final_snapshot: DEFAULT_CLOCK },
                    )
                    &&& final(self).cells == old(self).cells
                    &&& final(self).anchors == old(self).anchors
                    &&& final(self).clocks == old(self).clocks
                    &&& final(self).records_spec() == old(self).records_spec()
                }
            }),
    {
        let ta = self.transaction_anchors[t];
        if ta.final_snapshot != DEFAULT_CLOCK || ta.preliminary_snapshot != DEFAULT_CLOCK {
            return Err(Error::UnexpectedState);
        }
        self.transaction_anchors.set(
            t,
            TransactionAnchor { preliminary_snapshot: clock, final_snapshot: DEFAULT_CLOCK },
        );
        proof {
            assert(anchors_wf(self.anchors@, self.transaction_anchors@)) by {
                assert forall|i: int| 0 <= i < self.anchors@.len()
                    implies (#[trigger] self.anchors@[i]).transaction < self.transaction_anchors@.len() by {
                    assert(old(self).anchors@[i].transaction < old(self).transaction_anchors@.len());
                }
            }
        }
        Ok(())
    }

    /// Commits transaction `t` at `clock`: every cell its submitted journals locked that
    /// has no time point yet gets `clock`, each locker is released, and `clock` becomes
    /// the final snapshot (and the preliminary one, if none was published).
    ///
    /// Fails with `UnexpectedState`, changing nothing, when the transaction is already
    /// decided (a second commit) or its preliminary snapshot is later than `clock`.
    pub fn commit(&mut self, t: usize, clock: u64) -> (r: Result<(), Error>)
        requires
            old(self).wf(),
            t < old(self).transaction_anchors.len(),
            clock != DEFAULT_CLOCK,
            clock != INVALID_CLOCK,
        ensures
            final(self).wf(),
            ({
                let ta = old(self).transaction_anchors@[t as int];
                if ta.is_decided() || ta.preliminary_snapshot > clock {
                    r == Err::<(), Error>(Error::UnexpectedState) && *final(self) == *old(self)
                } else {
                    r == Ok::<(), Error>(()) && committed(*old(self), *final(self), t, clock)
                }
            }),
    {
        let ta = self.transaction_anchors[t];
        if ta.final_snapshot != DEFAULT_CLOCK || ta.preliminary_snapshot > clock {
            return Err(Error::UnexpectedState);
        }
        let preliminary_snapshot = if ta.preliminary_snapshot == DEFAULT_CLOCK {
            clock
        } else {
            ta.preliminary_snapshot
        };
        self.transaction_anchors.set(t, TransactionAnchor { preliminary_snapshot, final_snapshot: DEFAULT_CLOCK });
        proof {
            assert(anchors_wf(self.anchors@, self.transaction_anchors@)) by {
                assert forall|i: int| 0 <= i < self.anchors@.len()
                    implies (#[trigger] self.anchors@[i]).transaction < self.transaction_anchors@.len() by {
                    assert(old(self).anchors@[i].transaction < old(self).transaction_anchors@.len());
                }
            }
        }
        self.release_records(t, clock);
        self.transaction_anchors.set(t, TransactionAnchor { preliminary_snapshot, final_snapshot: clock });
        proof {
            assert(anchors_wf(self.anchors@, self.transaction_anchors@)) by {
                assert forall|i: int| 0 <= i < self.anchors@.len()
                    implies (#[trigger] self.anchors@[i]).transaction < self.transaction_anchors@.len() by {
                    assert(old(self).anchors@[i].transaction < old(self).transaction_anchors@.len());
                }
            }
            assert(self.transaction_anchors@ =~= old(self).transaction_anchors@.update(
                t as int, TransactionAnchor { preliminary_snapshot, final_snapshot: clock }));
        }
        Ok(())
    }

    /// Rolls transaction `t` back: each locker is released without a time point and
    /// the final snapshot becomes `INVALID_CLOCK`, which lets waiting writers take over
    /// the cells it still holds.
    ///
    /// Fails with `UnexpectedState`, changing nothing, when the transaction is already
    /// decided.
    pub fn abort(&mut self, t: usize) -> (r: Result<(), Error>)
        requires
            old(self).wf(),
            t < old(self).transaction_anchors.len(),
        ensures
            final(self).wf(),
            ({
                let ta = old(self).transaction_anchors@[t as int];
                if ta.is_decided() {
                    r == Err::<(), Error>(Error::UnexpectedState) && *final(self) == *old(self)
                } else {
                    r == Ok::<(), Error>(()) && rolled_back(*old(self), *final(self), t)
                }
            }),
    {
        let ta = self.transaction_anchors[t];
        if ta.final_snapshot != DEFAULT_CLOCK {
            return Err(Error::UnexpectedState);
        }
        self.release_records(t, INVALID_CLOCK);
        self.transaction_anchors.set(
            t,
            TransactionAnchor { preliminary_snapshot: ta.preliminary_snapshot, final_snapshot: INVALID_CLOCK },
        );
        proof {
            assert(anchors_wf(self.anchors@, self.transaction_anchors@)) by {
                assert forall|i: int| 0 <= i < self.anchors@.len()
                    implies (#[trigger] self.anchors@[i]).transaction < self.transaction_anchors@.len() by {
                    assert(old(self).anchors@[i].transaction < old(self).transaction_anchors@.len());
                }
            }
            assert forall|c: int| 0 <= c < self.cells.len()
                implies (#[trigger] self.cells@[c]).time_point == old(self).cells@[c].time_point by {
                if old(self).cells@[c].time_point != INVALID_CLOCK {
                }
            }
        }
        Ok(())
    }

    /// A reader's snapshot at `clock`, outside any transaction.
    pub fn snapshot(&self, clock: u64) -> (r: Snapshot)
        ensures
            r == (Snapshot { clock, transaction: None, transaction_clock: 0, journal: None }),
    {
        Snapshot { clock, transaction: None, transaction_clock: 0, journal: None }
    }

    /// Whether the version in cell `c` predates `snapshot`, or the anchor to wait on.
    pub fn predate(&self, c: usize, snapshot: &Snapshot) -> (r: PredateOutcome)
        requires
            self.wf(),
            c < self.cells.len(),
        ensures
            r == self.cells@[c as int].predate_spec(*snapshot, self.anchors@, self.transaction_anchors@),
    {
        self.cells[c].predate(snapshot, &self.anchors, &self.transaction_anchors)
    }
}

/// Releases `lockers` last first with `clock`, so that a cell taken over within a
/// transaction goes back through each earlier holder.
fn release_all(cells: &mut Vec<VersionCell>, lockers: Vec<VersionLocker>, clock: u64, n_anchors: usize)
    requires
        forall|c: int|
            0 <= c < old(cells).len() ==> (#[trigger] old(cells)@[c]).id == c
                && old(cells)@[c].owner_wf(n_anchors as nat),
        forall|k: int|
            0 <= k < lockers.len() ==> locker_wf(
                #[trigger] lockers@[k],
                old(cells).len() as nat,
                n_anchors as nat,
            ),
    ensures
        final(cells).len() == old(cells).len(),
        forall|c: int|
            0 <= c < final(cells).len() ==> (#[trigger] final(cells)@[c]).id == c
                && final(cells)@[c].owner_wf(n_anchors as nat),
        time_points_kept(old(cells)@, final(cells)@),
        forall|c: int|
            0 <= c < final(cells).len() ==> (#[trigger] final(cells)@[c]).time_point
                == old(cells)@[c].time_point || final(cells)@[c].time_point == clock,
        forall|k: int|
            0 <= k < lockers.len() ==> final(cells)@[(#[trigger] lockers@[k]).cell_spec() as int].time_point
                == stamped(old(cells)@[lockers@[k].cell_spec() as int].time_point, clock),
        forall|c: int|
            0 <= c < final(cells).len() && !cells_of(lockers@).contains(c as usize)
                ==> #[trigger] final(cells)@[c] == old(cells)@[c],
        final(cells)@ == released(old(cells)@, lockers@, clock),
{
    let ghost before = cells@;
    let ghost all = lockers@;
    let mut lockers = lockers;
    assert(all.subrange(0, all.len() as int) =~= all);
    while lockers.len() > 0
        invariant
            cells.len() == before.len(),
            lockers.len() <= all.len(),
            lockers@ == all.subrange(0, lockers.len() as int),
            forall|c: int|
                0 <= c < cells.len() ==> (#[trigger] cells@[c]).id == c
                    && cells@[c].owner_wf(n_anchors as nat),
            forall|k: int|
                0 <= k < all.len() ==> locker_wf(#[trigger] all[k], cells.len() as nat, n_anchors as nat),
            time_points_kept(before, cells@),
            forall|c: int|
                0 <= c < cells.len() ==> (#[trigger] cells@[c]).time_point == before[c].time_point
                    || cells@[c].time_point == clock,
            forall|k: int|
                lockers.len() <= k < all.len() ==> cells@[(#[trigger] all[k]).cell_spec() as int].time_point
                    == stamped(before[all[k].cell_spec() as int].time_point, clock),
            forall|c: int|
                0 <= c < cells.len() && !cells_of(all).contains(c as usize)
                    ==> #[trigger] cells@[c] == before[c],
            released(cells@, lockers@, clock) == released(before, all, clock),
        decreases lockers.len(),
    {
        let ghost cells_before = cells@;
        let ghost lockers_before = lockers@;
        let l = lockers.pop().unwrap();
        let ghost k = lockers.len() as int;
        assert(lockers@ =~= lockers_before.drop_last());
        assert(l == all[k]);
        let c = l.cell();
        assert(cells_of(all)[k] == c);
        let mut cell = cells[c];
        l.release(&mut cell, clock);
        cells.set(c, cell);
        assert forall|j: int|
            lockers.len() <= j < all.len() implies cells@[(#[trigger] all[j]).cell_spec() as int].time_point
                == stamped(before[all[j].cell_spec() as int].time_point, clock) by {
            if j != k && all[j].cell_spec() != c {
            }
        }
        assert(cells@ =~= cells_before.update(c as int, release_spec(cells_before[c as int],
            l.anchor_spec(), l.prev_owner_spec(), clock)));
    }
    assert(lockers@ =~= Seq::<VersionLocker>::empty());
}

impl Journal {
    pub closed spec fn transaction_spec(&self) -> usize {
        self.transaction
    }

    pub closed spec fn anchor_spec(&self) -> usize {
        self.anchor
    }

    /// The lockers this journal holds, in the order it took them.
    pub closed spec fn pending_lockers(&self) -> Seq<VersionLocker> {
        self.records@
    }

    /// The cells this journal has locked, in order.
    pub closed spec fn pending_cells(&self) -> Seq<usize> {
        cells_of(self.records@)
    }

    /// The journal belongs to `storage`: its anchor and lockers exist there.
    pub closed spec fn wf(&self, storage: &Storage) -> bool {
        &&& self.anchor < storage.anchors.len()
        &&& self.transaction < storage.transaction_anchors.len()
        &&& storage.anchors@[self.anchor as int].transaction == self.transaction
        &&& forall|k: int|
            0 <= k < self.records.len() ==> locker_wf(
                #[trigger] self.records@[k],
                storage.cells.len() as nat,
                storage.anchors.len() as nat,
            ) && self.records@[k].anchor_spec() == self.anchor
    }

    /// Starts a journal of transaction `transaction`: a new anchor whose creation clock
    /// is the transaction's current local clock.
    pub fn new(storage: &mut Storage, transaction: usize) -> (r: Journal)
        requires
            old(storage).wf(),
            transaction < old(storage).transaction_anchors.len(),
            old(storage).anchors.len() < usize::MAX,
        ensures
            final(storage).wf(),
            r.wf(final(storage)),
            r.transaction_spec() == transaction,
            r.anchor_spec() == old(storage).anchors.len(),
            r.pending_cells().len() == 0,
            final(storage).anchors@ == old(storage).anchors@.push(
                Anchor {
                    transaction,
                    creation_clock: old(storage).clocks@[transaction as int],
                    submit_clock: UNSUBMITTED,
                },
            ),
            final(storage).cells == old(storage).cells,
            final(storage).transaction_anchors == old(storage).transaction_anchors,
            final(storage).clocks == old(storage).clocks,
            final(storage).records_spec() == old(storage).records_spec(),
    {
        let anchor = storage.anchors.len();
        storage.anchors.push(Anchor::new(transaction, storage.clocks[transaction]));
        let r = Journal { transaction, anchor, records: Vec::new() };
        proof {
            assert(r.pending_cells() =~= Seq::<usize>::empty());
            assert forall|c: int| 0 <= c < storage.cells.len()
                implies (#[trigger] storage.cells@[c]).id == c
                    && storage.cells@[c].owner_wf(storage.anchors.len() as nat) by {
                assert(old(storage).cells@[c].owner_wf(old(storage).anchors.len() as nat));
            }
            assert(anchors_wf(storage.anchors@, storage.transaction_anchors@)) by {
                assert forall|i: int| 0 <= i < storage.anchors@.len()
                    implies (#[trigger] storage.anchors@[i]).transaction < storage.transaction_anchors@.len() by {
                    if i < anchor {
                        assert(old(storage).anchors@[i] == storage.anchors@[i]);
                    }
                }
            }
            assert forall|t: int, k: int|
                0 <= t < storage.records_spec().len() && 0 <= k < storage.records_spec()[t].len()
                    implies locker_wf(
                    #[trigger] storage.records_spec()[t][k],
                    storage.cells.len() as nat,
                    storage.anchors.len() as nat,
                ) by {
                assert(locker_wf(old(storage).records_spec()[t][k], old(storage).cells.len() as nat,
                    old(storage).anchors.len() as nat));
            }
        }
        r
    }

    /// Takes a snapshot at `clock` that includes the changes of this journal and of the
    /// journals its transaction has submitted so far.
    pub fn snapshot(&self, storage: &Storage, clock: u64) -> (r: Snapshot)
        requires
            self.wf(storage),
            storage.wf(),
        ensures
            r == (Snapshot {
                clock,
                transaction: Some(self.transaction_spec()),
                transaction_clock: storage.clocks@[self.transaction_spec() as int],
                journal: Some(self.anchor_spec()),
            }),
    {
        Snapshot {
            clock,
            transaction: Some(self.transaction),
            transaction_clock: storage.clocks[self.transaction],
            journal: Some(self.anchor),
        }
    }
    /// Locks the version in cell `c` for this journal and records the locker.
    ///
    /// Succeeds exactly when `VersionCell::lock_decision` takes the cell; a refusal is
    /// returned as its error, and a cell held by an open transaction reports the anchor
    /// to wait on. Only a success changes anything.
    pub fn create(&mut self, storage: &mut Storage, c: usize) -> (r: Result<Progress, Error>)
        requires
            old(storage).wf(),
            old(self).wf(old(storage)),
            c < old(storage).cells.len(),
        ensures
            final(storage).wf(),
            final(self).wf(final(storage)),
            final(self).transaction_spec() == old(self).transaction_spec(),
            final(self).anchor_spec() == old(self).anchor_spec(),
            final(storage).anchors == old(storage).anchors,
            final(storage).transaction_anchors == old(storage).transaction_anchors,
            final(storage).clocks == old(storage).clocks,
            final(storage).records_spec() == old(storage).records_spec(),
            match old(storage).cells@[c as int].lock_decision(
                old(storage).anchors@,
                old(storage).transaction_anchors@,
                old(self).anchor_spec(),
            ) {
                LockDecision::Take(_) => {
                    &&& r == Ok::<Progress, Error>(Progress::Done)
                    &&& final(storage).cells@ == old(storage).cells@.update(
                        c as int,
                        VersionCell { owner: Owner::Journal(old(self).anchor_spec()), ..old(storage).cells@[c as int] },
                    )
                    &&& final(self).pending_cells() == old(self).pending_cells().push(c)
                },
                LockDecision::Refuse(e) => {
                    &&& r == Err::<Progress, Error>(e)
                    &&& final(storage).cells == old(storage).cells
                    &&& final(self).pending_cells() == old(self).pending_cells()
                },
                LockDecision::Wait(o) => {
                    &&& r == Ok::<Progress, Error>(Progress::Blocked(o))
                    &&& final(storage).cells == old(storage).cells
                    &&& final(self).pending_cells() == old(self).pending_cells()
                },
            },
    {
        let mut cell = storage.cells[c];
        match cell.lock(self.anchor, &storage.anchors, &storage.transaction_anchors) {
            LockOutcome::Acquired(l) => {
                storage.cells.set(c, cell);
                self.records.push(l);
                proof {
                    assert(self.pending_cells() =~= old(self).pending_cells().push(c));
                    assert forall|i: int| 0 <= i < storage.cells.len()
                        implies (#[trigger] storage.cells@[i]).id == i
                            && storage.cells@[i].owner_wf(storage.anchors.len() as nat) by {
                        if i != c {
                            assert(storage.cells@[i] == old(storage).cells@[i]);
                        }
                    }
                    assert forall|k: int| 0 <= k < self.records.len() implies locker_wf(
                        #[trigger] self.records@[k],
                        storage.cells.len() as nat,
                        storage.anchors.len() as nat,
                    ) && self.records@[k].anchor_spec() == self.anchor by {
                        if k < old(self).records.len() {
                            assert(self.records@[k] == old(self).records@[k]);
                        } else {
                            assert(old(storage).cells@[c as int].owner_wf(storage.anchors.len() as nat));
                        }
                    }
                }
                Ok(Progress::Done)
            },
            LockOutcome::Refused(e) => Err(e),
            LockOutcome::Blocked(o) => Ok(Progress::Blocked(o)),
        }
    }

    /// Submits the journal: advances its transaction's local clock, stamps the anchor's
    /// submit clock with the new value, hands the lockers to the transaction, and returns
    /// the new clock.
    pub fn submit(self, storage: &mut Storage) -> (r: u64)
        requires
            old(storage).wf(),
            self.wf(old(storage)),
            old(storage).clocks@[self.transaction_spec() as int] + 1 < UNSUBMITTED,
        ensures
            final(storage).wf(),
            r == old(storage).clocks@[self.transaction_spec() as int] + 1,
            r > old(storage).anchors@[self.anchor_spec() as int].creation_clock,
            final(storage).clocks@ == old(storage).clocks@.update(self.transaction_spec() as int, r),
            final(storage).anchors@ == old(storage).anchors@.update(
                self.anchor_spec() as int,
                Anchor { submit_clock: r, ..old(storage).anchors@[self.anchor_spec() as int] },
            ),
            final(storage).locked_cells(self.transaction_spec()) == old(storage).locked_cells(
                self.transaction_spec(),
            ) + self.pending_cells(),
            forall|t: usize|
                t != self.transaction_spec() && t < old(storage).transaction_anchors.len()
                    ==> #[trigger] final(storage).locked_cells(t)
                == old(storage).locked_cells(t),
            final(storage).cells == old(storage).cells,
            final(storage).transaction_anchors == old(storage).transaction_anchors,
    {
        let Journal { transaction, anchor, records } = self;
        let r = storage.clocks[transaction] + 1;
        storage.clocks.set(transaction, r);
        let mut a = storage.anchors[anchor];
        a.submit_clock = r;
        storage.anchors.set(anchor, a);
        let mut taken: Vec<VersionLocker> = Vec::new();
        std::mem::swap(&mut storage.records[transaction], &mut taken);
        let mut records = records;
        taken.append(&mut records);
        std::mem::swap(&mut storage.records[transaction], &mut taken);
        proof {
            let t = transaction as int;
            assert(storage.records_spec() =~= old(storage).records_spec().update(
                t, old(storage).records_spec()[t] + self.records@));
            assert(cells_of(old(storage).records_spec()[t] + self.records@) =~=
                cells_of(old(storage).records_spec()[t]) + cells_of(self.records@));
            assert forall|u: usize| u != transaction && u < old(storage).transaction_anchors.len()
                implies #[trigger] storage.locked_cells(u) == old(storage).locked_cells(u) by {
                assert(storage.records_spec()[u as int] == old(storage).records_spec()[u as int]);
            }
            assert(anchors_wf(storage.anchors@, storage.transaction_anchors@)) by {
                assert forall|i: int| 0 <= i < storage.anchors@.len()
                    implies (#[trigger] storage.anchors@[i]).transaction < storage.transaction_anchors@.len() by {
                    assert(old(storage).anchors@[i].transaction < old(storage).transaction_anchors@.len());
                }
            }
            assert forall|u: int, k: int|
                0 <= u < storage.records_spec().len() && 0 <= k < storage.records_spec()[u].len()
                    implies locker_wf(
                    #[trigger] storage.records_spec()[u][k],
                    storage.cells.len() as nat,
                    storage.anchors.len() as nat,
                ) by {
                if u != t {
                    assert(storage.records_spec()[u][k] == old(storage).records_spec()[u][k]);
                } else if k < old(storage).records_spec()[t].len() {
                    assert(storage.records_spec()[u][k] == old(storage).records_spec()[u][k]);
                } else {
                    assert(storage.records_spec()[u][k] == self.records@[k - old(storage).records_spec()[t].len()]);
                }
            }
        }
        r
    }

    /// Drops the journal without submitting it: each of its lockers is released with
    /// no time point, last first, so every cell goes back to the owner it had before.
    pub fn rollback(self, storage: &mut Storage)
        requires
            old(storage).wf(),
            self.wf(old(storage)),
        ensures
            final(storage).wf(),
            final(storage).cells.len() == old(storage).cells.len(),
            forall|c: int|
                0 <= c < final(storage).cells.len() ==> (#[trigger] final(storage).cells@[c]).time_point
                    == old(storage).cells@[c].time_point,
            forall|c: int|
                0 <= c < final(storage).cells.len() && !self.pending_cells().contains(c as usize)
                    ==> #[trigger] final(storage).cells@[c] == old(storage).cells@[c],
            final(storage).cells@ == released(old(storage).cells@, self.pending_lockers(), INVALID_CLOCK),
            final(storage).anchors == old(storage).anchors,
            final(storage).transaction_anchors == old(storage).transaction_anchors,
            final(storage).clocks == old(storage).clocks,
            final(storage).records_spec() == old(storage).records_spec(),
    {
        let n = storage.anchors.len();
        release_all(&mut storage.cells, self.records, INVALID_CLOCK, n);
        proof {
            assert forall|c: int| 0 <= c < storage.cells.len()
                implies (#[trigger] storage.cells@[c]).time_point == old(storage).cells@[c].time_point by {
                if old(storage).cells@[c].time_point != INVALID_CLOCK {
                }
            }
        }
    }
}

/// A committed transaction's visibility is total: every version it created (a cell
/// its submitted journals locked while it had no time point) predates every snapshot
/// whose clock is at least the commit clock.
pub proof fn lemma_commit_visible(
    before: Storage,
    after: Storage,
    t: usize,
    clock: u64,
    k: int,
    snapshot: Snapshot,
)
    requires
        before.wf(),
        t < before.transaction_anchors.len(),
        clock != INVALID_CLOCK,
        committed(before, after, t, clock),
        0 <= k < before.locked_cells(t).len(),
        before.cells@[before.locked_cells(t)[k] as int].time_point == INVALID_CLOCK,
        clock <= snapshot.clock,
    ensures
        after.cells@[before.locked_cells(t)[k] as int].predate_spec(
            snapshot,
            after.anchors@,
            after.transaction_anchors@,
        ) == PredateOutcome::Decided(true),
{
    let c = before.locked_cells(t)[k];
    assert(after.cells@[c as int].time_point == clock);
}

/// A rolled-back transaction is invisible: a cell that had no time point before the
/// rollback still has none, and while it is free or held by a journal of that
/// transaction it predates no snapshot taken outside the transaction.
pub proof fn lemma_abort_invisible(
    before: Storage,
    after: Storage,
    t: usize,
    c: usize,
    snapshot: Snapshot,
)
    requires
        after.wf(),
        t < before.transaction_anchors.len(),
        rolled_back(before, after, t),
        c < before.cells.len(),
        before.cells@[c as int].time_point == INVALID_CLOCK,
        match after.cells@[c as int].owner {
            Owner::Free => true,
            Owner::Journal(o) => after.anchors@[o as int].transaction == t,
        },
        snapshot.transaction != Some(t),
    ensures
        after.cells@[c as int].time_point == INVALID_CLOCK,
        after.cells@[c as int].predate_spec(snapshot, after.anchors@, after.transaction_anchors@)
            == PredateOutcome::Decided(false),
{
    let cell = after.cells@[c as int];
    assert(after.transaction_anchors@[t as int].is_rolled_back());
    assert(cell.owner_wf(after.anchors.len() as nat));
    lemma_rolled_back_invisible(cell, snapshot, after.anchors@, after.transaction_anchors@);
}

/// A journal reads its own uncommitted writes: a cell it holds without a time point
/// predates the journal's own snapshot, at any clock.
pub proof fn lemma_reads_own_writes(storage: Storage, journal: Journal, c: usize, clock: u64)
    requires
        storage.wf(),
        journal.wf(&storage),
        c < storage.cells.len(),
        storage.cells@[c as int].owner == Owner::Journal(journal.anchor_spec()),
        storage.cells@[c as int].time_point == INVALID_CLOCK,
    ensures
        storage.cells@[c as int].predate_spec(
            Snapshot {
                clock,
                transaction: Some(journal.transaction_spec()),
                transaction_clock: storage.clocks@[journal.transaction_spec() as int],
                journal: Some(journal.anchor_spec()),
            },
            storage.anchors@,
            storage.transaction_anchors@,
        ) == PredateOutcome::Decided(true),
{
}

/// While a journal `a` holds a cell unsubmitted and its transaction is open, no other
/// journal can take the cell: one of the same transaction is refused as a deadlock at
/// once, one of another transaction waits on `a`.
pub proof fn lemma_held_cell_exclusive(storage: Storage, c: usize, a: usize, b: usize)
    requires
        storage.wf(),
        c < storage.cells.len(),
        a < storage.anchors.len(),
        b < storage.anchors.len(),
        a != b,
        storage.cells@[c as int].time_point == INVALID_CLOCK,
        storage.cells@[c as int].owner == Owner::Journal(a),
        !storage.anchors@[a as int].is_submitted(),
        !storage.transaction_anchors@[storage.anchors@[a as int].transaction as int].is_decided(),
    ensures
        storage.anchors@[b as int].transaction == storage.anchors@[a as int].transaction
            ==> storage.cells@[c as int].lock_decision(storage.anchors@, storage.transaction_anchors@, b)
            == LockDecision::Refuse(Error::Deadlock),
        storage.anchors@[b as int].transaction != storage.anchors@[a as int].transaction
            ==> storage.cells@[c as int].lock_decision(storage.anchors@, storage.transaction_anchors@, b)
            == LockDecision::Wait(a),
{
    let ab = storage.anchors@[b as int];
    assert(ab.creation_clock <= storage.clocks@[ab.transaction as int]);
    assert(storage.clocks@[ab.transaction as int] < UNSUBMITTED);
}

} // verus!

