use tss::{allocate_slot, Error, Install, Page, PageManager, Reinstate};

fn dirty(bytes: Vec<u8>) -> Page {
    let mut p = Page::new(bytes);
    p.dirty = true;
    p
}

#[test]
fn install_then_read() {
    let mut pm = PageManager::new();
    assert!(pm.read_page(1).is_none());
    assert!(matches!(pm.install(1, Page::new(vec![1, 2, 3])), Install::Inserted));
    let p = pm.read_page(1).unwrap();
    assert_eq!(p.buffer, vec![1, 2, 3]);
    assert!(!p.dirty);
    // A second load of a resident address is handed back and the cache keeps its page.
    match pm.install(1, Page::new(vec![9])) {
        Install::Resident(back) => assert_eq!(back.buffer, vec![9]),
        _ => panic!("address 1 is resident"),
    }
    assert_eq!(pm.read_page(1).unwrap().buffer, vec![1, 2, 3]);
}

#[test]
fn write_page_replaces_resident_only() {
    let mut pm = PageManager::new();
    match pm.write_page(5, dirty(vec![7])) {
        Err(back) => assert_eq!(back.buffer, vec![7]),
        Ok(_) => panic!("address 5 is not resident"),
    }
    assert!(pm.read_page(5).is_none());
    assert!(matches!(pm.install(5, Page::new(vec![0, 0])), Install::Inserted));
    let former = pm.write_page(5, dirty(vec![4, 4])).ok().unwrap();
    assert_eq!(former.buffer, vec![0, 0]);
    let now = pm.read_page(5).unwrap();
    assert_eq!(now.buffer, vec![4, 4]);
    assert!(now.dirty);
}

#[test]
fn failed_write_back_keeps_dirty_page() {
    // Pages A and B (dirty) are resident; C is loaded. Should C's insertion have evicted
    // B and B's write-back failed, the insertion is reverted and B stays dirty.
    let (a, b, c) = (10u64, 20u64, 30u64);
    let mut pm = PageManager::new();
    assert!(matches!(pm.install(a, Page::new(vec![1])), Install::Inserted));
    assert!(matches!(pm.install(b, dirty(vec![2, 2])), Install::Inserted));
    let b_copy = pm.read_page(b).unwrap();
    let evicted = match pm.install(c, Page::new(vec![3])) {
        Install::Evicted(k, v) => (k, v),
        Install::Inserted | Install::EvictedClean(_) => (b, b_copy),
        Install::Resident(_) => panic!("c was not resident"),
    };
    match pm.revert(c, evicted.0, evicted.1) {
        // B was still resident: the copy is handed back for write-back, not dropped.
        Reinstate::WriteBack(k, v) => {
            assert_eq!(k, b);
            assert!(v.dirty);
        }
        Reinstate::Restored => {}
        Reinstate::DroppedClean(_) => panic!("a dirty page must not be dropped"),
    }
    assert!(pm.read_page(c).is_none());
    let kept = pm.read_page(b).unwrap();
    assert_eq!(kept.buffer, vec![2, 2]);
    assert!(kept.dirty);
    assert_eq!(pm.read_page(a).unwrap().buffer, vec![1]);
}

#[test]
fn revert_reinstates_an_evicted_page() {
    let mut pm = PageManager::new();
    assert!(matches!(pm.install(1, Page::new(vec![1])), Install::Inserted));
    // Entry 2 was evicted earlier and is absent now: reverting the insertion of 1 brings it back.
    assert!(matches!(pm.revert(1, 2, dirty(vec![5, 6])), Reinstate::Restored));
    assert!(pm.read_page(1).is_none());
    let back = pm.read_page(2).unwrap();
    assert_eq!(back.buffer, vec![5, 6]);
    assert!(back.dirty);
}

#[test]
fn reinstate_resident_address() {
    let mut pm = PageManager::new();
    assert!(matches!(pm.install(4, Page::new(vec![1])), Install::Inserted));
    assert!(matches!(pm.reinstate(4, Page::new(vec![9])), Reinstate::DroppedClean(4)));
    match pm.reinstate(4, dirty(vec![8])) {
        Reinstate::WriteBack(k, v) => {
            assert_eq!(k, 4);
            assert_eq!(v.buffer, vec![8]);
        }
        _ => panic!("a dirty page must be handed back"),
    }
    assert_eq!(pm.read_page(4).unwrap().buffer, vec![1]);
    assert!(matches!(pm.reinstate(5, dirty(vec![7])), Reinstate::Restored));
    assert_eq!(pm.read_page(5).unwrap().buffer, vec![7]);
}

#[test]
fn delete_page_is_refused() {
    let mut pm = PageManager::new();
    assert!(matches!(pm.install(3, Page::new(vec![1])), Install::Inserted));
    assert_eq!(pm.delete_page(3), Err(Error::UnexpectedState));
    assert_eq!(pm.read_page(3).unwrap().buffer, vec![1]);
}

#[test]
fn allocate_first_free_slot() {
    let mut dir = Page::new(vec![0b0000_0000, 0]);
    assert_eq!(allocate_slot(&mut dir), Some(1));
    assert_eq!(dir.buffer, vec![0b0000_0010, 0]);
    assert!(dir.dirty);
    assert_eq!(allocate_slot(&mut dir), Some(2));
    assert_eq!(dir.buffer, vec![0b0000_0110, 0]);
}

#[test]
fn allocate_in_deleted_segment() {
    let mut dir = Page::new(vec![0b0000_0001, 0]);
    assert_eq!(allocate_slot(&mut dir), None);
    assert_eq!(dir.buffer, vec![0b0000_0001, 0]);
    assert!(!dir.dirty);
}

#[test]
fn allocate_skips_taken_slots() {
    let mut dir = Page::new(vec![0b1111_1110, 0b0000_0111]);
    assert_eq!(allocate_slot(&mut dir), Some(8 + 3));
    assert_eq!(dir.buffer, vec![0b1111_1110, 0b0000_1111]);
}

#[test]
fn allocate_in_full_or_empty_directory() {
    let mut empty = Page::new(vec![]);
    assert_eq!(allocate_slot(&mut empty), None);
    assert!(!empty.dirty);
    let mut full = Page::new(vec![0b1111_1110, 0xff]);
    assert_eq!(allocate_slot(&mut full), None);
    assert_eq!(full.buffer, vec![0b1111_1110, 0xff]);
    assert!(!full.dirty);
}

#[test]
fn create_page_in_resident_directory() {
    let mut pm = PageManager::new();
    assert_eq!(pm.create_page(0), Err(Error::UnexpectedState));
    assert!(matches!(pm.install(0, Page::new(vec![0b0000_0110, 0])), Install::Inserted));
    assert_eq!(pm.create_page(0), Ok(3));
    let dir = pm.read_page(0).unwrap();
    assert_eq!(dir.buffer, vec![0b0000_1110, 0]);
    assert!(dir.dirty);
    assert!(matches!(pm.install(64, Page::new(vec![0b0000_0001])), Install::Inserted));
    assert_eq!(pm.create_page(64), Err(Error::UnexpectedState));
}
