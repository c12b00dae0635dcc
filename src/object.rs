use vstd::prelude::*;

use crate::anchor::Snapshot;
use crate::journal::Storage;
use crate::anchor::INVALID_CLOCK;
use crate::version::{Owner, PredateOutcome, VersionCell};

verus! {

/// A versioned object: it names the version cell that guards it until it is unversioned.
pub trait Version {
    /// The object's version cell; `None` once the object is visible to everyone.
    spec fn cell_spec(&self) -> Option<usize>;

    fn version_cell(&self) -> (r: Option<usize>)
        ensures
            r == self.cell_spec(),
    ;

    /// Drops the version cell, making the object visible to all present and future
    /// readers; returns whether it had one.
    fn unversion(&mut self) -> (r: bool)
        ensures
            r == old(self).cell_spec().is_some(),
            final(self).cell_spec().is_none(),
    ;
}

/// Whether `object` predates `snapshot`: an unversioned object always does; otherwise
/// its cell decides, or names the anchor to wait on.
pub fn predate<V: Version>(object: &V, storage: &Storage, snapshot: &Snapshot) -> (r: PredateOutcome)
    requires
        storage.wf(),
        object.cell_spec().is_some() ==> object.cell_spec().unwrap() < storage.cells.len(),
    ensures
        r == match object.cell_spec() {
            None => PredateOutcome::Decided(true),
            Some(c) => storage.cells@[c as int].predate_spec(
                *snapshot,
                storage.anchors@,
                storage.transaction_anchors@,
            ),
        },
{
    match object.version_cell() {
        None => PredateOutcome::Decided(true),
        Some(c) => storage.predate(c, snapshot),
    }
}

/// A record that carries one version cell of the storage.
#[derive(Debug)]
pub struct DefaultVersionedObject {
    pub cell: Option<usize>,
}

impl DefaultVersionedObject {
    /// A new object with a fresh cell in `storage`, invisible to every reader.
    pub fn new(storage: &mut Storage) -> (r: DefaultVersionedObject)
        requires
            old(storage).wf(),
            old(storage).cells.len() < usize::MAX,
        ensures
            final(storage).wf(),
            r.cell == Some(old(storage).cells.len()),
            final(storage).cells@ == old(storage).cells@.push(
                VersionCell { id: old(storage).cells.len(), owner: Owner::Free, time_point: INVALID_CLOCK },
            ),
            final(storage).anchors == old(storage).anchors,
            final(storage).transaction_anchors == old(storage).transaction_anchors,
    {
        let c = storage.create_cell();
        DefaultVersionedObject { cell: Some(c) }
    }
}

impl Version for DefaultVersionedObject {
    open spec fn cell_spec(&self) -> Option<usize> {
        self.cell
    }

    fn version_cell(&self) -> (r: Option<usize>) {
        self.cell
    }

    fn unversion(&mut self) -> (r: bool) {
        let had = self.cell.is_some();
        self.cell = None;
        had
    }
}

} // verus!
