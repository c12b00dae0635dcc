use tss::{
    predate, Anchor, DefaultVersionedObject, Error, Journal, LockOutcome, Owner,
    PredateOutcome, Progress, Storage, TransactionAnchor, Version, VersionCell, Visibility,
    DEFAULT_CLOCK, INVALID_CLOCK, UNSUBMITTED,
};

fn setup() -> (Storage, usize) {
    let mut storage = Storage::new();
    let x = storage.create_cell();
    (storage, x)
}

#[test]
fn first_submit_returns_one() {
    let mut storage = Storage::new();
    let t = storage.transaction();
    let journal = Journal::new(&mut storage, t);
    assert_eq!(journal.submit(&mut storage), 1);
    let journal = Journal::new(&mut storage, t);
    assert_eq!(storage.anchors[1].creation_clock, 1);
    assert_eq!(journal.submit(&mut storage), 2);
    assert_eq!(storage.clocks[t], 2);
    assert_eq!(storage.anchors[1].submit_clock, 2);
    assert!(storage.anchors[1].submit_clock > storage.anchors[1].creation_clock);
}

#[test]
fn write_write_conflict_across_transactions() {
    let (mut storage, x) = setup();
    let t1 = storage.transaction();
    let t2 = storage.transaction();
    let mut j1 = Journal::new(&mut storage, t1);
    let mut j2 = Journal::new(&mut storage, t2);
    assert_eq!(j1.create(&mut storage, x), Ok(Progress::Done));
    // T2 must wait on T1's journal anchor (index 0).
    assert_eq!(j2.create(&mut storage, x), Ok(Progress::Blocked(0)));
    j1.submit(&mut storage);
    assert_eq!(storage.commit(t1, 5), Ok(()));
    assert_eq!(storage.cells[x].time_point, 5);
    assert_eq!(storage.cells[x].owner, Owner::Free);
    // Woken up, T2 finds the time point pinned.
    assert_eq!(j2.create(&mut storage, x), Err(Error::Conflict));
    let reader = storage.snapshot(6);
    assert_eq!(storage.predate(x, &reader), PredateOutcome::Decided(true));
    let early = storage.snapshot(4);
    assert_eq!(storage.predate(x, &early), PredateOutcome::Decided(false));
}

#[test]
fn same_transaction_overtake() {
    let (mut storage, x) = setup();
    let t1 = storage.transaction();
    let mut j1 = Journal::new(&mut storage, t1);
    assert_eq!(j1.create(&mut storage, x), Ok(Progress::Done));
    assert_eq!(j1.submit(&mut storage), 1);
    let mut j2 = Journal::new(&mut storage, t1);
    assert_eq!(storage.anchors[1].creation_clock, 1);
    assert_eq!(j2.create(&mut storage, x), Ok(Progress::Done));
    assert_eq!(storage.cells[x].owner, Owner::Journal(1));
    j2.submit(&mut storage);
    assert_eq!(storage.commit(t1, 3), Ok(()));
    assert_eq!(storage.cells[x].owner, Owner::Free);
    assert_eq!(storage.cells[x].time_point, 3);
}

#[test]
fn self_deadlock_refusal() {
    let (mut storage, x) = setup();
    let t1 = storage.transaction();
    let mut j1 = Journal::new(&mut storage, t1);
    let mut j2 = Journal::new(&mut storage, t1);
    assert_eq!(storage.anchors[1].creation_clock, 0);
    assert_eq!(j1.create(&mut storage, x), Ok(Progress::Done));
    assert_eq!(j2.create(&mut storage, x), Err(Error::Deadlock));
    assert_eq!(storage.cells[x].owner, Owner::Journal(0));
}

#[test]
fn rollback_overtake() {
    let (mut storage, x) = setup();
    let t1 = storage.transaction();
    let t2 = storage.transaction();
    let mut j1 = Journal::new(&mut storage, t1);
    let mut j2 = Journal::new(&mut storage, t2);
    assert_eq!(j1.create(&mut storage, x), Ok(Progress::Done));
    assert_eq!(j2.create(&mut storage, x), Ok(Progress::Blocked(0)));
    assert_eq!(storage.abort(t1), Ok(()));
    assert_eq!(storage.transaction_anchors[t1].final_snapshot, INVALID_CLOCK);
    // The rolled-back owner is overtaken.
    assert_eq!(j2.create(&mut storage, x), Ok(Progress::Done));
    assert_eq!(storage.cells[x].owner, Owner::Journal(1));
    j1.rollback(&mut storage);
    assert_eq!(storage.cells[x].owner, Owner::Journal(1));
    j2.submit(&mut storage);
    assert_eq!(storage.commit(t2, 7), Ok(()));
    let reader = storage.snapshot(7);
    assert_eq!(storage.predate(x, &reader), PredateOutcome::Decided(true));
}

fn preliminary_setup() -> (Storage, usize, usize) {
    let (mut storage, x) = setup();
    let t1 = storage.transaction();
    let mut j1 = Journal::new(&mut storage, t1);
    assert_eq!(j1.create(&mut storage, x), Ok(Progress::Done));
    j1.submit(&mut storage);
    assert_eq!(storage.pre_commit(t1, 8), Ok(()));
    (storage, x, t1)
}

#[test]
fn reader_waits_across_preliminary_commit() {
    let (mut storage, x, t1) = preliminary_setup();
    let reader = storage.snapshot(10);
    assert_eq!(storage.predate(x, &reader), PredateOutcome::Blocked(0));
    // A reader that predates the preliminary snapshot does not wait.
    let old_reader = storage.snapshot(8);
    assert_eq!(storage.predate(x, &old_reader), PredateOutcome::Decided(false));
    assert_eq!(storage.commit(t1, 9), Ok(()));
    assert_eq!(storage.predate(x, &reader), PredateOutcome::Decided(true));
}

#[test]
fn reader_waits_across_preliminary_rollback() {
    let (mut storage, x, t1) = preliminary_setup();
    let reader = storage.snapshot(10);
    assert_eq!(storage.predate(x, &reader), PredateOutcome::Blocked(0));
    assert_eq!(storage.abort(t1), Ok(()));
    assert_eq!(storage.predate(x, &reader), PredateOutcome::Decided(false));
}

#[test]
fn journal_reads_own_writes() {
    let (mut storage, x) = setup();
    let t1 = storage.transaction();
    let mut j1 = Journal::new(&mut storage, t1);
    assert_eq!(j1.create(&mut storage, x), Ok(Progress::Done));
    let own = j1.snapshot(&storage, 1);
    assert_eq!(own.journal, Some(0));
    assert_eq!(own.transaction, Some(t1));
    assert_eq!(storage.predate(x, &own), PredateOutcome::Decided(true));
    let outsider = storage.snapshot(100);
    assert_eq!(storage.predate(x, &outsider), PredateOutcome::Decided(false));
    // A later journal of the same transaction sees it once it is submitted.
    j1.submit(&mut storage);
    let j2 = Journal::new(&mut storage, t1);
    let later = j2.snapshot(&storage, 1);
    assert_eq!(storage.predate(x, &later), PredateOutcome::Decided(true));
}

#[test]
fn release_pins_time_point() {
    let anchors = vec![Anchor::new(0, 0), Anchor::new(1, 0)];
    let transactions = vec![TransactionAnchor::new(), TransactionAnchor::new()];
    let mut cell = VersionCell::new(0);
    let locker = match cell.lock(0, &anchors, &transactions) {
        LockOutcome::Acquired(l) => l,
        _ => panic!("the free cell must be taken"),
    };
    assert_eq!(locker.cell(), 0);
    locker.release(&mut cell, 4);
    assert_eq!(cell.time_point, 4);
    assert_eq!(cell.owner, Owner::Free);
    assert!(matches!(cell.lock(1, &anchors, &transactions), LockOutcome::Refused(Error::Conflict)));
    assert!(matches!(cell.lock(0, &anchors, &transactions), LockOutcome::Refused(Error::Conflict)));
}

#[test]
fn release_without_clock_restores_owner() {
    let anchors = vec![Anchor::new(0, 0)];
    let transactions = vec![TransactionAnchor::new()];
    let mut cell = VersionCell::new(3);
    assert_eq!(cell.id(), 3);
    let locker = match cell.lock(0, &anchors, &transactions) {
        LockOutcome::Acquired(l) => l,
        _ => panic!("the free cell must be taken"),
    };
    assert!(matches!(cell.lock(0, &anchors, &transactions), LockOutcome::Refused(Error::Conflict)));
    locker.release(&mut cell, INVALID_CLOCK);
    assert_eq!(cell.time_point, INVALID_CLOCK);
    assert_eq!(cell.owner, Owner::Free);
}

#[test]
fn time_point_is_write_once() {
    let (mut storage, x) = setup();
    let t1 = storage.transaction();
    let mut j1 = Journal::new(&mut storage, t1);
    assert_eq!(j1.create(&mut storage, x), Ok(Progress::Done));
    j1.submit(&mut storage);
    assert_eq!(storage.commit(t1, 5), Ok(()));
    let t2 = storage.transaction();
    let mut j2 = Journal::new(&mut storage, t2);
    assert_eq!(j2.create(&mut storage, x), Err(Error::Conflict));
    j2.submit(&mut storage);
    assert_eq!(storage.commit(t2, 9), Ok(()));
    assert_eq!(storage.cells[x].time_point, 5);
}

#[test]
fn exclusive_lock_between_transactions() {
    let (mut storage, x) = setup();
    let t1 = storage.transaction();
    let t2 = storage.transaction();
    let mut j1 = Journal::new(&mut storage, t1);
    let mut j2 = Journal::new(&mut storage, t2);
    assert_eq!(j1.create(&mut storage, x), Ok(Progress::Done));
    assert_eq!(j1.create(&mut storage, x), Err(Error::Conflict));
    assert_eq!(j2.create(&mut storage, x), Ok(Progress::Blocked(0)));
    assert_eq!(storage.cells[x].owner, Owner::Journal(0));
}

#[test]
fn commit_twice_is_detected() {
    let (mut storage, x) = setup();
    let t1 = storage.transaction();
    let mut j1 = Journal::new(&mut storage, t1);
    assert_eq!(j1.create(&mut storage, x), Ok(Progress::Done));
    j1.submit(&mut storage);
    assert_eq!(storage.commit(t1, 5), Ok(()));
    assert_eq!(storage.commit(t1, 6), Err(Error::UnexpectedState));
    assert_eq!(storage.abort(t1), Err(Error::UnexpectedState));
    assert_eq!(storage.pre_commit(t1, 6), Err(Error::UnexpectedState));
    assert_eq!(storage.transaction_anchors[t1].final_snapshot, 5);
}

#[test]
fn commit_before_preliminary_is_refused() {
    let mut storage = Storage::new();
    let t1 = storage.transaction();
    assert_eq!(storage.pre_commit(t1, 8), Ok(()));
    assert_eq!(storage.pre_commit(t1, 9), Err(Error::UnexpectedState));
    assert_eq!(storage.commit(t1, 7), Err(Error::UnexpectedState));
    assert_eq!(storage.commit(t1, 8), Ok(()));
    assert_eq!(storage.transaction_anchors[t1].preliminary_snapshot, 8);
}

#[test]
fn committed_visibility_is_total() {
    let mut storage = Storage::new();
    let x = storage.create_cell();
    let y = storage.create_cell();
    let t1 = storage.transaction();
    let mut j1 = Journal::new(&mut storage, t1);
    assert_eq!(j1.create(&mut storage, x), Ok(Progress::Done));
    assert_eq!(j1.create(&mut storage, y), Ok(Progress::Done));
    j1.submit(&mut storage);
    assert_eq!(storage.commit(t1, 4), Ok(()));
    for clock in [4u64, 5, 1000] {
        let reader = storage.snapshot(clock);
        assert_eq!(storage.predate(x, &reader), PredateOutcome::Decided(true));
        assert_eq!(storage.predate(y, &reader), PredateOutcome::Decided(true));
    }
}

#[test]
fn rolled_back_transaction_is_invisible() {
    let mut storage = Storage::new();
    let x = storage.create_cell();
    let t1 = storage.transaction();
    let mut j1 = Journal::new(&mut storage, t1);
    assert_eq!(j1.create(&mut storage, x), Ok(Progress::Done));
    j1.submit(&mut storage);
    assert_eq!(storage.abort(t1), Ok(()));
    assert_eq!(storage.cells[x].time_point, INVALID_CLOCK);
    assert_eq!(storage.cells[x].owner, Owner::Free);
    for clock in [1u64, 5, 1000] {
        let reader = storage.snapshot(clock);
        assert_eq!(storage.predate(x, &reader), PredateOutcome::Decided(false));
    }
}

#[test]
fn rollback_releases_locks() {
    let (mut storage, x) = setup();
    let t1 = storage.transaction();
    let t2 = storage.transaction();
    let mut j1 = Journal::new(&mut storage, t1);
    assert_eq!(j1.create(&mut storage, x), Ok(Progress::Done));
    j1.rollback(&mut storage);
    assert_eq!(storage.cells[x].owner, Owner::Free);
    assert_eq!(storage.cells[x].time_point, INVALID_CLOCK);
    // Both a later journal of the same transaction and another transaction may take it.
    let mut j2 = Journal::new(&mut storage, t1);
    assert_eq!(j2.create(&mut storage, x), Ok(Progress::Done));
    j2.rollback(&mut storage);
    let mut j3 = Journal::new(&mut storage, t2);
    assert_eq!(j3.create(&mut storage, x), Ok(Progress::Done));
}

#[test]
fn rollback_of_overtaking_journal_restores_previous_owner() {
    let (mut storage, x) = setup();
    let t1 = storage.transaction();
    let mut j1 = Journal::new(&mut storage, t1);
    assert_eq!(j1.create(&mut storage, x), Ok(Progress::Done));
    j1.submit(&mut storage);
    let mut j2 = Journal::new(&mut storage, t1);
    assert_eq!(j2.create(&mut storage, x), Ok(Progress::Done));
    assert_eq!(storage.cells[x].owner, Owner::Journal(1));
    j2.rollback(&mut storage);
    assert_eq!(storage.cells[x].owner, Owner::Journal(0));
    assert_eq!(storage.abort(t1), Ok(()));
    assert_eq!(storage.cells[x].owner, Owner::Free);
}

#[test]
fn anchor_lockable_and_predate() {
    let mut a = Anchor::new(2, 3);
    let b = Anchor::new(2, 5);
    let c = Anchor::new(7, 9);
    assert_eq!(a.submit_clock(), UNSUBMITTED);
    assert_eq!(a.lockable(&b), (true, false));
    assert_eq!(a.lockable(&c), (false, false));
    a.submit_clock = 5;
    assert_eq!(a.lockable(&b), (true, true));
    a.submit_clock = 6;
    assert_eq!(a.lockable(&b), (true, false));
    assert!(a.predate(0, 2, 6, None));
    assert!(!a.predate(0, 2, 5, None));
    assert!(a.predate(0, 2, 5, Some(0)));
    assert!(!a.predate(0, 2, 5, Some(1)));
    assert!(!a.predate(0, 7, 100, Some(0)));
}

#[test]
fn anchor_visible_and_wait() {
    let a = Anchor::new(0, 0);
    let mut t = TransactionAnchor::new();
    assert_eq!(a.wait(&t), None);
    assert_eq!(a.visible(&t, 10), Visibility::Decided(false));
    t.preliminary_snapshot = 8;
    assert_eq!(a.visible(&t, 8), Visibility::Decided(false));
    assert_eq!(a.visible(&t, 10), Visibility::Pending);
    t.final_snapshot = 9;
    assert_eq!(a.wait(&t), Some(9));
    assert_eq!(a.visible(&t, 10), Visibility::Decided(true));
    assert_eq!(a.visible(&t, 9), Visibility::Decided(true));
    t.final_snapshot = INVALID_CLOCK;
    assert_eq!(a.wait(&t), Some(INVALID_CLOCK));
    assert_eq!(a.visible(&t, 10), Visibility::Decided(false));
    assert_eq!(TransactionAnchor::new().final_snapshot, DEFAULT_CLOCK);
}

#[test]
fn versioned_object_predate_and_unversion() {
    let mut storage = Storage::new();
    let mut object = DefaultVersionedObject::new(&mut storage);
    assert_eq!(object.version_cell(), Some(0));
    assert_eq!(storage.cells[0].owner, Owner::Free);
    assert_eq!(storage.cells[0].time_point, INVALID_CLOCK);
    let reader = storage.snapshot(10);
    assert_eq!(predate(&object, &storage, &reader), PredateOutcome::Decided(false));
    assert!(object.unversion());
    assert!(!object.unversion());
    assert_eq!(predate(&object, &storage, &reader), PredateOutcome::Decided(true));
}

#[test]
fn error_variants_are_distinct() {
    let all = [Error::Conflict, Error::Deadlock, Error::OutOfMemory, Error::Timeout, Error::UnexpectedState];
    for (i, a) in all.iter().enumerate() {
        for (j, b) in all.iter().enumerate() {
            assert_eq!(i == j, a == b);
        }
    }
}
