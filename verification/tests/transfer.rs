use nas_rom_manager::transfer::{stale, StreamStore, TransferError, DEAD_TIME_LENGTH};

#[test]
fn new_store_is_empty() {
    let store = StreamStore::new();
    assert_eq!(store.len(), 0);
    assert!(!store.contains("a"));
    assert!(store.get("a").is_none());
}

#[test]
fn begin_starts_a_record() {
    let mut store = StreamStore::new();
    assert!(store.begin("up-1", "/lib/roms/snes/a.sfc", 100, 1000));
    let record = store.get("up-1").unwrap();
    assert_eq!(record.id, "up-1");
    assert_eq!(record.path, "/lib/roms/snes/a.sfc");
    assert_eq!(record.current_size, 0);
    assert_eq!(record.total_size, 100);
    assert_eq!(record.last_chunk_time, 1000);
    assert_eq!(store.len(), 1);
}

#[test]
fn begin_is_idempotent() {
    let mut store = StreamStore::new();
    assert!(store.begin("up-1", "/a", 100, 1000));
    store.advance("up-1", 40, 1001).unwrap();
    assert!(!store.begin("up-1", "/other", 7, 2000));
    let record = store.get("up-1").unwrap();
    assert_eq!(record.path, "/a");
    assert_eq!(record.current_size, 40);
    assert_eq!(record.total_size, 100);
    assert_eq!(record.last_chunk_time, 1001);
    assert_eq!(store.len(), 1);
}

#[test]
fn advance_counts_bytes_and_time() {
    let mut store = StreamStore::new();
    store.begin("up-1", "/a", 100, 1000);
    assert_eq!(store.advance("up-1", 30, 1005), Ok(()));
    let record = store.get("up-1").unwrap();
    assert_eq!(record.current_size, 30);
    assert_eq!(record.last_chunk_time, 1005);
}

#[test]
fn advance_of_unknown_upload_is_an_error() {
    let mut store = StreamStore::new();
    store.begin("up-1", "/a", 100, 1000);
    assert_eq!(store.advance("up-2", 30, 1005), Err(TransferError::NotFound));
    assert_eq!(store.get("up-1").unwrap().current_size, 0);
    assert_eq!(store.len(), 1);
}

#[test]
fn chunks_that_sum_to_total_complete_the_upload() {
    let mut store = StreamStore::new();
    store.begin("up-1", "/a", 1000, 0);
    for (i, chunk) in [256u64, 256, 256, 232].iter().enumerate() {
        store.advance("up-1", *chunk, i as i64).unwrap();
    }
    let record = store.get("up-1").unwrap();
    assert_eq!(record.current_size, 1000);
    assert_eq!(record.current_size, record.total_size);
}

#[test]
fn uploads_do_not_disturb_each_other() {
    let mut store = StreamStore::new();
    store.begin("a", "/a", 10, 0);
    store.begin("b", "/b", 20, 0);
    store.advance("a", 3, 1).unwrap();
    store.advance("b", 5, 2).unwrap();
    store.advance("a", 7, 3).unwrap();
    store.advance("b", 15, 4).unwrap();
    assert_eq!(store.get("a").unwrap().current_size, 10);
    assert_eq!(store.get("b").unwrap().current_size, 20);
    assert_eq!(store.get("a").unwrap().last_chunk_time, 3);
    assert_eq!(store.get("b").unwrap().last_chunk_time, 4);
}

#[test]
fn interleaved_chunks_give_the_same_counts_in_either_order() {
    let mut first = StreamStore::new();
    first.begin("a", "/a", 10, 0);
    first.begin("b", "/b", 20, 0);
    first.advance("a", 3, 1).unwrap();
    first.advance("b", 5, 2).unwrap();
    let mut second = StreamStore::new();
    second.begin("a", "/a", 10, 0);
    second.begin("b", "/b", 20, 0);
    second.advance("b", 5, 2).unwrap();
    second.advance("a", 3, 1).unwrap();
    assert_eq!(first.get("a"), second.get("a"));
    assert_eq!(first.get("b"), second.get("b"));
}

#[test]
fn count_stops_at_the_largest_number() {
    let mut store = StreamStore::new();
    store.begin("a", "/a", 10, 0);
    store.advance("a", u64::MAX - 1, 1).unwrap();
    store.advance("a", 5, 2).unwrap();
    assert_eq!(store.get("a").unwrap().current_size, u64::MAX);
}

#[test]
fn record_chunk_starts_and_advances() {
    let mut store = StreamStore::new();
    store.record_chunk("a", "/a", 10, 4, 100);
    assert_eq!(store.get("a").unwrap().current_size, 4);
    assert_eq!(store.get("a").unwrap().total_size, 10);
    store.record_chunk("a", "/ignored", 99, 6, 101);
    let record = store.get("a").unwrap();
    assert_eq!(record.current_size, 10);
    assert_eq!(record.total_size, 10);
    assert_eq!(record.path, "/a");
    assert_eq!(record.last_chunk_time, 101);
}

#[test]
fn complete_removes_and_returns_the_record() {
    let mut store = StreamStore::new();
    store.begin("a", "/a", 10, 0);
    store.begin("b", "/b", 20, 0);
    let record = store.complete("a").unwrap();
    assert_eq!(record.id, "a");
    assert_eq!(record.path, "/a");
    assert!(!store.contains("a"));
    assert!(store.contains("b"));
    assert!(store.complete("a").is_none());
    assert_eq!(store.len(), 1);
}

#[test]
fn cancel_removes_and_returns_the_record() {
    let mut store = StreamStore::new();
    store.begin("a", "/partial", 10, 0);
    let record = store.cancel("a").unwrap();
    assert_eq!(record.path, "/partial");
    assert_eq!(store.len(), 0);
}

#[test]
fn cancel_of_unknown_upload_is_an_error() {
    let mut store = StreamStore::new();
    store.begin("a", "/a", 10, 0);
    assert_eq!(store.cancel("zzz"), Err(TransferError::NotFound));
    assert_eq!(store.len(), 1);
    assert!(store.contains("a"));
}

#[test]
fn dead_time_is_one_hour() {
    assert_eq!(DEAD_TIME_LENGTH, 3600);
}

#[test]
fn stale_after_more_than_an_hour() {
    assert!(!stale(3600, 0));
    assert!(stale(3601, 0));
    assert!(!stale(0, 0));
    assert!(!stale(0, 5000));
    assert!(stale(i64::MAX, i64::MIN));
    assert!(!stale(i64::MIN, i64::MAX));
    assert!(stale(-1, -3602));
    assert!(!stale(-1, -3601));
}

#[test]
fn sweep_removes_stale_uploads_only() {
    let mut store = StreamStore::new();
    store.begin("old", "/old", 10, 1000);
    store.begin("edge", "/edge", 10, 1400);
    store.begin("fresh", "/fresh", 10, 4999);
    let removed = store.sweep(5000);
    assert_eq!(removed.len(), 1);
    assert_eq!(removed[0].id, "old");
    assert_eq!(removed[0].path, "/old");
    assert!(!store.contains("old"));
    assert!(store.contains("edge"));
    assert!(store.contains("fresh"));
    assert_eq!(store.get("edge").unwrap().last_chunk_time, 1400);
    assert_eq!(store.len(), 2);
}

#[test]
fn sweep_spares_an_upload_that_got_a_chunk() {
    let mut store = StreamStore::new();
    store.begin("a", "/a", 10, 0);
    store.begin("b", "/b", 10, 0);
    store.advance("a", 1, 3000).unwrap();
    let removed = store.sweep(4000);
    assert_eq!(removed.len(), 1);
    assert_eq!(removed[0].id, "b");
    let kept = store.get("a").unwrap();
    assert_eq!(kept.current_size, 1);
    assert_eq!(kept.last_chunk_time, 3000);
}

#[test]
fn sweep_of_empty_store_removes_nothing() {
    let mut store = StreamStore::new();
    assert!(store.sweep(10_000).is_empty());
    assert_eq!(store.len(), 0);
}

#[test]
fn sweep_twice_removes_nothing_more() {
    let mut store = StreamStore::new();
    store.begin("old", "/old", 10, 0);
    store.begin("new", "/new", 10, 9000);
    assert_eq!(store.sweep(10_000).len(), 1);
    assert_eq!(store.sweep(10_000).len(), 0);
    assert!(store.contains("new"));
}
