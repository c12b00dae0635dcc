use vstd::prelude::*;

use crate::error::Error;
use scc::hash_cache::Entry;
use scc::HashCache;
use std::hash::BuildHasher;

verus! {

#[verifier::external_type_specification]
#[verifier::external_body]
#[verifier::reject_recursive_types(K)]
#[verifier::reject_recursive_types(V)]
#[verifier::reject_recursive_types(H)]
pub struct ExHashCache<K, V, H>(HashCache<K, V, H>) where H: BuildHasher;

/// A resident page: its bytes and whether they differ from the file.
#[derive(Debug)]
pub struct Page {
    pub buffer: Vec<u8>,
    pub dirty: bool,
}

impl View for Page {
    type V = (Seq<u8>, bool);

    open spec fn view(&self) -> (Seq<u8>, bool) {
        (self.buffer@, self.dirty)
    }
}

impl Page {
    /// A clean page holding `buffer`.
    pub fn new(buffer: Vec<u8>) -> (r: Page)
        ensures
            r@ == (buffer@, false),
    {
        Page { buffer, dirty: false }
    }

    /// A copy of the page.
    pub fn duplicate(&self) -> (r: Page)
        ensures
            r@ == self@,
    {
        let buffer = self.buffer.clone();
        assert(buffer@ =~= self.buffer@);
        Page { buffer, dirty: self.dirty }
    }
}

/// The concurrent map from page address to resident page.
type PageTable = HashCache<u64, Page>;

/// What `put` hands back: the evicted entry, or the pair itself for a resident address.
type PutResult = Result<Option<(u64, Page)>, (u64, Page)>;

/// What a page cache holds: the view of the page resident at each address.
pub uninterp spec fn cached_pages(c: PageTable) -> Map<u64, (Seq<u8>, bool)>;

/// Relies on `scc::HashCache::with_capacity`: a new cache is empty.
#[verifier::external_body]
fn cache_new(minimum_capacity: usize, maximum_capacity: usize) -> (r: PageTable)
    ensures
        cached_pages(r) =~= Map::empty(),
{
    HashCache::with_capacity(minimum_capacity, maximum_capacity)
}

/// Relies on `scc::HashCache::read`: the reader runs on the entry of `address`, if any.
#[verifier::external_body]
fn cache_read(c: &PageTable, address: u64) -> (r: Option<Page>)
    ensures
        r.is_some() == cached_pages(*c).contains_key(address),
        r.is_some() ==> r.unwrap()@ == cached_pages(*c)[address],
{
    c.read(&address, |_, v| v.duplicate())
}

/// Relies on `scc::HashCache::put`: an existing key hands the pair back unchanged;
/// otherwise the pair is inserted and at most one other entry is evicted and returned.
#[verifier::external_body]
fn cache_put(c: &mut PageTable, address: u64, page: Page) -> (r: PutResult)
    ensures
        cached_pages(*old(c)).contains_key(address) ==> (r == Err::<Option<(u64, Page)>, (u64, Page)>(
            (address, page),
        ) && cached_pages(*final(c)) == cached_pages(*old(c))),
        !cached_pages(*old(c)).contains_key(address) ==> match r {
            Ok(None) => cached_pages(*final(c)) == cached_pages(*old(c)).insert(address, page@),
            Ok(Some((k, v))) => {
                &&& cached_pages(*old(c)).contains_key(k)
                &&& cached_pages(*old(c))[k] == v@
                &&& cached_pages(*final(c)) == cached_pages(*old(c)).remove(k).insert(address, page@)
            },
            Err(_) => false,
        },
{
    c.put(address, page)
}

/// Relies on `scc::HashCache::remove`: the entry of `address`, if any, is taken out.
#[verifier::external_body]
fn cache_remove(c: &mut PageTable, address: u64) -> (r: Option<(u64, Page)>)
    ensures
        r.is_some() == cached_pages(*old(c)).contains_key(address),
        r.is_some() ==> r.unwrap().0 == address && r.unwrap().1@ == cached_pages(*old(c))[address],
        cached_pages(*final(c)) == cached_pages(*old(c)).remove(address),
{
    c.remove(&address)
}

/// Relies on `scc::HashCache::entry` and `OccupiedEntry::put`: the value of a resident
/// `address` is replaced and the former one returned; for an absent one the page is
/// handed back and nothing changes.
#[verifier::external_body]
fn cache_replace(c: &mut PageTable, address: u64, page: Page) -> (r: Result<Page, Page>)
    ensures
        cached_pages(*old(c)).contains_key(address) ==> {
            &&& r is Ok
            &&& r->Ok_0@ == cached_pages(*old(c))[address]
            &&& cached_pages(*final(c)) == cached_pages(*old(c)).insert(address, page@)
        },
        !cached_pages(*old(c)).contains_key(address) ==> {
            &&& r == Err::<Page, Page>(page)
            &&& cached_pages(*final(c)) == cached_pages(*old(c))
        },
{
    match c.entry(address) {
        Entry::Occupied(mut o) => Ok(o.put(page)),
        Entry::Vacant(_) => Err(page),
    }
}

/// Whether bit `bit` of `byte` is set.
pub open spec fn bit_set(byte: u8, bit: int) -> bool {
    (byte >> (bit as u8)) & 1u8 == 1u8
}

/// Whether slot `i` of a directory bitmap is taken: bit `i % 8` of byte `i / 8`.
/// Slot 0 marks the segment as deleted.
pub open spec fn slot_taken(bitmap: Seq<u8>, i: int) -> bool {
    bit_set(bitmap[i / 8], i % 8)
}

/// The bitmap with slot `i` marked taken.
pub open spec fn take_slot(bitmap: Seq<u8>, i: int) -> Seq<u8> {
    bitmap.update(i / 8, bitmap[i / 8] | (1u8 << ((i % 8) as u8)))
}

/// Whether a directory bitmap offers no page: the segment is deleted, or every slot
/// after the first is taken.
pub open spec fn directory_full(bitmap: Seq<u8>) -> bool {
    bitmap.len() == 0 || slot_taken(bitmap, 0) || forall|j: int|
        1 <= j < 8 * bitmap.len() ==> #[trigger] slot_taken(bitmap, j)
}

/// Finds the first free slot of a segment directory, marks it taken and the page dirty,
/// and returns its index; a deleted or full directory is left as it is.
pub fn allocate_slot(directory: &mut Page) -> (r: Option<u64>)
    requires
        old(directory).buffer.len() < 0x1000_0000_0000_0000,
    ensures
        r.is_none() == directory_full(old(directory).buffer@),
        r.is_none() ==> final(directory)@ == old(directory)@,
        r.is_some() ==> {
            let i = r.unwrap() as int;
            &&& 1 <= i < 8 * old(directory).buffer.len()
            &&& !slot_taken(old(directory).buffer@, i)
            &&& forall|j: int| 1 <= j < i ==> #[trigger] slot_taken(old(directory).buffer@, j)
            &&& final(directory).buffer@ == take_slot(old(directory).buffer@, i)
            &&& final(directory).dirty
        },
{
    let len = directory.buffer.len();
    if len == 0 || (directory.buffer[0] >> 0u8) & 1u8 == 1u8 {
        return None;
    }
    let mut byte: usize = 0;
    while byte < len
        invariant
            len == directory.buffer.len(),
            directory.buffer@ == old(directory).buffer@,
            directory.dirty == old(directory).dirty,
            len > 0,
            !slot_taken(directory.buffer@, 0),
            len < 0x1000_0000_0000_0000,
            byte <= len,
            forall|j: int| 1 <= j < 8 * byte ==> #[trigger] slot_taken(directory.buffer@, j),
        decreases len - byte,
    {
        let b = directory.buffer[byte];
        let mut bit: u8 = if byte == 0 { 1 } else { 0 };
        while bit < 8
            invariant
                len == directory.buffer.len(),
                directory.buffer@ == old(directory).buffer@,
                directory.dirty == old(directory).dirty,
                byte < len,
                !slot_taken(directory.buffer@, 0),
                b == directory.buffer@[byte as int],
                byte == 0 ==> bit >= 1,
                bit <= 8,
                len < 0x1000_0000_0000_0000,
                forall|j: int| 1 <= j < 8 * byte + bit ==> #[trigger] slot_taken(directory.buffer@, j),
            decreases 8 - bit,
        {
            let low = (b >> bit) & 1u8;
            assert(low == 0u8 || low == 1u8) by (bit_vector)
                requires
                    low == (b >> bit) & 1u8,
            ;
            if low == 0u8 {
                let i: u64 = (byte as u64) * 8 + (bit as u64);
                assert(i as int / 8 == byte as int && i as int % 8 == bit as int);
                assert(!slot_taken(old(directory).buffer@, i as int));
                assert(1 <= i < 8 * len);
                assert(!directory_full(old(directory).buffer@));
                directory.buffer.set(byte, b | (1u8 << bit));
                directory.dirty = true;
                return Some(i);
            }
            assert(slot_taken(directory.buffer@, 8 * byte as int + bit as int)) by {
                assert((8 * byte as int + bit as int) / 8 == byte as int && (8 * byte as int + bit as int) % 8
                    == bit as int);
            }
            bit = bit + 1;
        }
        byte = byte + 1;
    }
    None
}

/// What installing a freshly loaded page did.
#[derive(Debug)]
pub enum Install {
    /// The address was already resident; the loaded page is handed back unused.
    Resident(Page),
    Inserted,
    /// Inserted; the clean page at this address was evicted to make room and dropped.
    EvictedClean(u64),
    /// Inserted; this dirty entry was evicted to make room. The caller writes it back,
    /// or on failure reverts the insertion.
    Evicted(u64, Page),
}

/// What putting a page back into the cache did. A dirty page never leaves the cache
/// silently: it is either resident again or handed back for write-back.
#[derive(Debug)]
pub enum Reinstate {
    Restored,
    /// The clean page at this address was dropped to make room (or was the page itself,
    /// if its address was resident already).
    DroppedClean(u64),
    /// This dirty page left the cache (or could not enter it): write it back, and on
    /// failure reinstate it.
    WriteBack(u64, Page),
}

/// The pages after putting `page` at `address` as a reinstatement reported `r`.
pub open spec fn reinstated(
    before: Map<u64, (Seq<u8>, bool)>,
    after: Map<u64, (Seq<u8>, bool)>,
    address: u64,
    page: (Seq<u8>, bool),
    r: Reinstate,
) -> bool {
    if before.contains_key(address) {
        after == before && (if page.1 {
            r matches Reinstate::WriteBack(k, v) && k == address && v@ == page
        } else {
            r == Reinstate::DroppedClean(address)
        })
    } else {
        match r {
            Reinstate::Restored => after == before.insert(address, page),
            Reinstate::DroppedClean(k) => {
                &&& before.contains_key(k)
                &&& !before[k].1
                &&& after == before.remove(k).insert(address, page)
            },
            Reinstate::WriteBack(k, v) => {
                &&& before.contains_key(k)
                &&& before[k] == v@
                &&& v.dirty
                &&& after == before.remove(k).insert(address, page)
            },
        }
    }
}

/// A bounded map from page address to resident page.
pub struct PageManager {
    pages: PageTable,
}

/// A failed write-back leaves no trace: when installing `page` at `address` evicted the
/// dirty `evicted` from `evicted_address`, and reverting puts it back with
/// `Reinstate::Restored`, the cache holds exactly what it held before the install.
pub proof fn lemma_revert_restores(
    before: Map<u64, (Seq<u8>, bool)>,
    installed: Map<u64, (Seq<u8>, bool)>,
    after: Map<u64, (Seq<u8>, bool)>,
    address: u64,
    page: (Seq<u8>, bool),
    evicted_address: u64,
    evicted: (Seq<u8>, bool),
)
    requires
        !before.contains_key(address),
        before.contains_key(evicted_address),
        before[evicted_address] == evicted,
        installed == before.remove(evicted_address).insert(address, page),
        reinstated(installed.remove(address), after, evicted_address, evicted, Reinstate::Restored),
    ensures
        after == before,
{
    assert(!installed.remove(address).contains_key(evicted_address));
    assert(after =~= before);
}

impl PageManager {
    /// The resident pages.
    pub closed spec fn pages(&self) -> Map<u64, (Seq<u8>, bool)> {
        cached_pages(self.pages)
    }

    /// An empty cache of 16 to 16M entries.
    pub fn new() -> (r: PageManager)
        ensures
            r.pages() =~= Map::empty(),
    {
        PageManager { pages: cache_new(0x10, 0x100_0000) }
    }

    /// A copy of the page resident at `address`, if any.
    pub fn read_page(&self, address: u64) -> (r: Option<Page>)
        ensures
            r.is_some() == self.pages().contains_key(address),
            r.is_some() ==> r.unwrap()@ == self.pages()[address],
    {
        cache_read(&self.pages, address)
    }

    /// Replaces the page resident at `address` with `page` and returns the former one;
    /// an absent address hands `page` back and changes nothing.
    pub fn write_page(&mut self, address: u64, page: Page) -> (r: Result<Page, Page>)
        ensures
            old(self).pages().contains_key(address) ==> {
                &&& r is Ok
                &&& r->Ok_0@ == old(self).pages()[address]
                &&& final(self).pages() == old(self).pages().insert(address, page@)
            },
            !old(self).pages().contains_key(address) ==> {
                &&& r == Err::<Page, Page>(page)
                &&& final(self).pages() == old(self).pages()
            },
    {
        cache_replace(&mut self.pages, address, page)
    }

    /// Makes `page`, just loaded from the file, resident at `address`. A clean page
    /// evicted for it is dropped; a dirty one is handed back.
    pub fn install(&mut self, address: u64, page: Page) -> (r: Install)
        ensures
            old(self).pages().contains_key(address) ==> {
                &&& r == Install::Resident(page)
                &&& final(self).pages() == old(self).pages()
            },
            !old(self).pages().contains_key(address) ==> match r {
                Install::Inserted => final(self).pages() == old(self).pages().insert(address, page@),
                Install::EvictedClean(k) => {
                    &&& old(self).pages().contains_key(k)
                    &&& !old(self).pages()[k].1
                    &&& final(self).pages() == old(self).pages().remove(k).insert(address, page@)
                },
                Install::Evicted(k, v) => {
                    &&& old(self).pages().contains_key(k)
                    &&& old(self).pages()[k] == v@
                    &&& v.dirty
                    &&& final(self).pages() == old(self).pages().remove(k).insert(address, page@)
                },
                Install::Resident(_) => false,
            },
    {
        match cache_put(&mut self.pages, address, page) {
            Ok(None) => Install::Inserted,
            Ok(Some((k, v))) => {
                if v.dirty {
                    Install::Evicted(k, v)
                } else {
                    Install::EvictedClean(k)
                }
            },
            Err((_, p)) => Install::Resident(p),
        }
    }

    /// Puts `page` back at `address`, typically a dirty page whose write-back failed.
    pub fn reinstate(&mut self, address: u64, page: Page) -> (r: Reinstate)
        ensures
            reinstated(old(self).pages(), final(self).pages(), address, page@, r),
    {
        match cache_put(&mut self.pages, address, page) {
            Ok(None) => Reinstate::Restored,
            Ok(Some((k, v))) => {
                if v.dirty {
                    Reinstate::WriteBack(k, v)
                } else {
                    Reinstate::DroppedClean(k)
                }
            },
            Err((k, p)) => {
                if p.dirty {
                    Reinstate::WriteBack(k, p)
                } else {
                    Reinstate::DroppedClean(k)
                }
            },
        }
    }

    /// Undoes an insertion at `address` whose evicted entry could not be written back:
    /// the inserted page leaves and `evicted` is put back at `evicted_address`.
    pub fn revert(&mut self, address: u64, evicted_address: u64, evicted: Page) -> (r: Reinstate)
        ensures
            reinstated(old(self).pages().remove(address), final(self).pages(), evicted_address, evicted@, r),
    {
        let _ = cache_remove(&mut self.pages, address);
        self.reinstate(evicted_address, evicted)
    }

    /// Returning a page to its segment is not supported: freed pages are never recycled,
    /// so the request is refused with `UnexpectedState` and nothing changes.
    pub fn delete_page(&self, page_address: u64) -> (r: Result<u64, Error>)
        ensures
            r == Err::<u64, Error>(Error::UnexpectedState),
    {
        let _ = page_address;
        Err(Error::UnexpectedState)
    }

    /// Allocates a page in the segment whose directory page is resident at
    /// `segment_address`: the directory's first free slot is marked taken (and the
    /// directory dirty) and its index returned.
    ///
    /// Fails with `UnexpectedState`, changing nothing, when the directory is not
    /// resident, the segment is deleted or no slot is free.
    pub fn create_page(&mut self, segment_address: u64) -> (r: Result<u64, Error>)
        ensures
            !old(self).pages().contains_key(segment_address) || directory_full(
                old(self).pages()[segment_address].0,
            ) || old(self).pages()[segment_address].0.len() >= 0x1000_0000_0000_0000 ==> {
                &&& r == Err::<u64, Error>(Error::UnexpectedState)
                &&& final(self).pages() == old(self).pages()
            },
            r is Ok ==> {
                let bitmap = old(self).pages()[segment_address].0;
                let i = r->Ok_0 as int;
                &&& old(self).pages().contains_key(segment_address)
                &&& 1 <= i < 8 * bitmap.len()
                &&& !slot_taken(bitmap, i)
                &&& forall|j: int| 1 <= j < i ==> #[trigger] slot_taken(bitmap, j)
                &&& final(self).pages() == old(self).pages().insert(
                    segment_address,
                    (take_slot(bitmap, i), true),
                )
            },
            old(self).pages().contains_key(segment_address) && !directory_full(
                old(self).pages()[segment_address].0,
            ) && old(self).pages()[segment_address].0.len() < 0x1000_0000_0000_0000 ==> r is Ok,
    {
        let mut directory = match cache_read(&self.pages, segment_address) {
            Some(d) => d,
            None => {
                return Err(Error::UnexpectedState);
            },
        };
        if directory.buffer.len() as u64 >= 0x1000_0000_0000_0000u64 {
            return Err(Error::UnexpectedState);
        }
        match allocate_slot(&mut directory) {
            None => Err(Error::UnexpectedState),
            Some(i) => {
                let _ = cache_replace(&mut self.pages, segment_address, directory);
                Ok(i)
            },
        }
    }
}

} // verus!
