use std::collections::HashMap;

use lru_cache_adaptor::{Action, DiskStore, FileInfo, LRUError, LRUResult, LruCache};

/// Files on a simulated disk: path to size in bytes.
type Disk = HashMap<String, u64>;

fn open(capacity: usize) -> LruCache {
    LruCache::new(DiskStore::open_temporary(capacity).unwrap())
}

/// Drives one insertion to its end; deleting a file takes it off `disk`.
fn place(
    cache: &mut LruCache,
    disk: &mut Disk,
    key: u64,
    path: &str,
    size: u64,
    exceed: isize,
) -> LRUResult<Vec<FileInfo>> {
    disk.insert(path.to_string(), size);
    let (mut ins, mut action) = cache.start_insert(key, path.to_string(), exceed)?;
    loop {
        let freed = match action {
            Action::ReclaimReplaced(p) => disk.remove(&p),
            Action::ReclaimEvicted(p) => disk.remove(&p),
            Action::Committed => return Ok(ins.into_records()),
        };
        action = cache.resume_insert(&mut ins, freed)?;
    }
}

fn info(key: u64, path: &str, size: u64) -> FileInfo {
    FileInfo { key, file_path: path.to_string(), file_size: size }
}

/// Inserts files of the given sizes under keys 0, 1, ... into a pool of
/// `total` bytes, and returns the bytes in use after each insertion with
/// what it evicted.
fn fill(
    cache: &mut LruCache,
    disk: &mut Disk,
    total: isize,
    sizes: &[isize],
) -> (isize, Vec<Vec<FileInfo>>) {
    let mut used: isize = 0;
    let mut evicted = Vec::new();
    for (i, &size) in sizes.iter().enumerate() {
        let path = format!("temp_{i}");
        let removed = place(cache, disk, i as u64, &path, size as u64, size - (total - used)).unwrap();
        for r in &removed {
            used -= r.file_size as isize;
        }
        used += size;
        evicted.push(removed);
    }
    (used, evicted)
}

#[test]
fn fifth_insertion_evicts_oldest_and_fits() {
    let mut cache = open(1024);
    let mut disk = Disk::new();
    let (used, evicted) = fill(&mut cache, &mut disk, 2048, &[512, 512, 768, 512, 1536]);
    assert_eq!(used, 1536);
    assert!(evicted[0].is_empty());
    assert!(evicted[1].is_empty());
    assert!(evicted[2].is_empty());
    // 512 more bytes against 256 free: the oldest goes.
    assert_eq!(evicted[3], vec![info(0, "temp_0", 512)]);
    // 1536 against 256 free: oldest first, until the overflow is negative.
    assert_eq!(
        evicted[4],
        vec![info(1, "temp_1", 512), info(2, "temp_2", 768), info(3, "temp_3", 512)]
    );
    assert_eq!(cache.len(), 1);
    assert_eq!(cache.most_recently_used().unwrap(), Some(4));
    assert_eq!(disk.len(), 1);
}

#[test]
fn too_large_file_flushes_cache_and_fails() {
    let mut cache = open(1024);
    let mut disk = Disk::new();
    let total: isize = 2048;
    let (used, _) = fill(&mut cache, &mut disk, total, &[512, 512, 768, 512, 1536]);
    let size = total + 1;
    let r = place(&mut cache, &mut disk, 5, "temp_5", size as u64, size - (total - used));
    assert!(matches!(r, Err(LRUError::InsufficientCapacity)));
    assert_eq!(cache.len(), 0);
    assert_eq!(cache.peek(&5).unwrap(), None);
    assert_eq!(cache.least_recently_used().unwrap(), None);
}

#[test]
fn replacing_key_reclaims_old_file_first() {
    let mut cache = open(16);
    let mut disk = Disk::new();
    place(&mut cache, &mut disk, 1, "a", 10, -100).unwrap();
    place(&mut cache, &mut disk, 7, "old", 100, -40).unwrap();
    place(&mut cache, &mut disk, 2, "b", 10, -100).unwrap();
    let removed = place(&mut cache, &mut disk, 7, "new", 50, -40).unwrap();
    assert!(removed.is_empty());
    assert_eq!(cache.peek(&7).unwrap(), Some("new".to_string()));
    assert!(!disk.contains_key("old"));
    assert_eq!(cache.len(), 3);
    assert_eq!(cache.most_recently_used().unwrap(), Some(7));
    assert_eq!(cache.least_recently_used().unwrap(), Some(1));
}

#[test]
fn replaced_size_counts_before_eviction() {
    let mut cache = open(16);
    let mut disk = Disk::new();
    place(&mut cache, &mut disk, 1, "a", 10, -100).unwrap();
    place(&mut cache, &mut disk, 2, "b", 100, -100).unwrap();
    // 60 bytes over, but the old file of key 2 frees 100: nothing else goes.
    let removed = place(&mut cache, &mut disk, 2, "b2", 160, 60).unwrap();
    assert!(removed.is_empty());
    assert_eq!(cache.len(), 2);
    assert_eq!(cache.peek(&1).unwrap(), Some("a".to_string()));
}

#[test]
fn replaced_key_stays_until_commit() {
    let mut cache = open(16);
    let mut disk = Disk::new();
    place(&mut cache, &mut disk, 3, "x", 10, -100).unwrap();
    let (mut ins, action) = cache.start_insert(3, "y".to_string(), 5).unwrap();
    assert_eq!(action, Action::ReclaimReplaced("x".to_string()));
    assert_eq!(cache.peek(&3).unwrap(), Some("x".to_string()));
    // 10 bytes freed: 5 - 10 < 0, so the entry is committed at once.
    let next = cache.resume_insert(&mut ins, Some(10)).unwrap();
    assert_eq!(next, Action::Committed);
    assert_eq!(cache.peek(&3).unwrap(), Some("y".to_string()));
    assert!(ins.records().is_empty());
}

#[test]
fn exact_fit_still_evicts() {
    let mut cache = open(16);
    let mut disk = Disk::new();
    place(&mut cache, &mut disk, 1, "a", 10, -1).unwrap();
    // An overflow of zero means no byte is free yet.
    let removed = place(&mut cache, &mut disk, 2, "b", 10, 0).unwrap();
    assert_eq!(removed, vec![info(1, "a", 10)]);
}

#[test]
fn absent_file_is_evicted_with_zero_size() {
    let mut cache = open(16);
    let mut disk = Disk::new();
    place(&mut cache, &mut disk, 1, "gone", 10, -100).unwrap();
    place(&mut cache, &mut disk, 2, "here", 30, -100).unwrap();
    disk.remove("gone");
    let removed = place(&mut cache, &mut disk, 3, "c", 20, 5).unwrap();
    assert_eq!(removed, vec![info(1, "gone", 0), info(2, "here", 30)]);
    assert_eq!(cache.len(), 1);
}

#[test]
fn empty_store_with_overflow_fails() {
    let mut cache = open(16);
    let mut disk = Disk::new();
    let r = place(&mut cache, &mut disk, 1, "a", 10, 0);
    assert!(matches!(r, Err(LRUError::InsufficientCapacity)));
    assert_eq!(cache.len(), 0);
}

#[test]
fn negative_overflow_commits_without_eviction() {
    let mut cache = open(16);
    let (_ins, action) = cache.start_insert(9, "n".to_string(), -1).unwrap();
    assert_eq!(action, Action::Committed);
    assert_eq!(cache.peek(&9).unwrap(), Some("n".to_string()));
}

#[test]
fn eviction_rounds_follow_lru_order() {
    let mut cache = open(16);
    let mut disk = Disk::new();
    for k in 0..4u64 {
        place(&mut cache, &mut disk, k, &format!("f{k}"), 10, -100).unwrap();
    }
    cache.access(&0).unwrap();
    let (mut ins, mut action) = cache.start_insert(8, "g".to_string(), 25).unwrap();
    let mut rounds = 0;
    while let Action::ReclaimEvicted(p) = action.clone() {
        rounds += 1;
        action = cache.resume_insert(&mut ins, disk.remove(&p)).unwrap();
    }
    assert_eq!(action, Action::Committed);
    assert_eq!(rounds, 3);
    let keys: Vec<u64> = ins.records().iter().map(|r| r.key).collect();
    assert_eq!(keys, vec![1, 2, 3]);
    assert_eq!(cache.len(), 2);
}
