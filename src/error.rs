use vstd::prelude::*;

verus! {

/// The error codes surfaced to callers of the lock table.
#[derive(Clone, Copy, Debug, PartialEq, Eq, Structural)]
pub enum Error {
    /// The operation conflicts with another one: the version already has a time point,
    /// or it is already held by the requesting journal.
    Conflict,
    /// The operation would wait on a journal of the same transaction that cannot
    /// make progress before the requester does.
    Deadlock,
    /// Memory allocation failed.
    OutOfMemory,
    /// A bounded wait expired.
    Timeout,
    /// An invariant was found broken at run time.
    UnexpectedState,
}

} // verus!
