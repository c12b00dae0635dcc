//! Transactional lock table: multi-version concurrency control over version cells,
//! journals and transaction anchors, and a bounded page cache.

pub mod anchor;
pub mod error;

pub use anchor::{
    Anchor, Snapshot, TransactionAnchor, Visibility, DEFAULT_CLOCK, INVALID_CLOCK, UNSUBMITTED,
};
pub use error::Error;

pub mod version;
pub use version::{LockDecision, LockOutcome, Owner, PredateOutcome, VersionCell, VersionLocker};

pub mod journal;
pub use journal::{Journal, Progress, Storage};

pub mod page_manager;
pub use page_manager::{allocate_slot, Install, Page, PageManager, Reinstate};

pub mod object;
pub use object::{predate, DefaultVersionedObject, Version};
