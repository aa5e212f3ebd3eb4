use burrowland::storage_tracker::{StorageTracker, StorageUsage};

fn make_tracker(added: StorageUsage, released: StorageUsage) -> StorageTracker {
    StorageTracker { bytes_added: added, bytes_released: released, initial_storage_usage: None }
}

#[test]
fn test_consume_single_accumulates_both_fields() {
    let mut target = make_tracker(10, 5);
    let mut source = make_tracker(20, 15);

    target.consume(&mut source);

    assert_eq!(target.bytes_added, 30);
    assert_eq!(target.bytes_released, 20);
    assert_eq!(source.bytes_added, 0);
    assert_eq!(source.bytes_released, 0);

    target.clean();
}

#[test]
fn test_consume_multiple_accumulates_bytes_released() {
    let mut target = make_tracker(0, 0);

    let mut source1 = make_tracker(0, 200);
    target.consume(&mut source1);
    assert_eq!(target.bytes_released, 200);

    let mut source2 = make_tracker(0, 50);
    target.consume(&mut source2);
    assert_eq!(target.bytes_released, 250, "bytes_released must accumulate across multiple consume() calls");

    target.clean();
}

#[test]
fn test_consume_multiple_accumulates_bytes_added() {
    let mut target = make_tracker(0, 0);

    let mut source1 = make_tracker(100, 0);
    target.consume(&mut source1);
    assert_eq!(target.bytes_added, 100);

    let mut source2 = make_tracker(75, 0);
    target.consume(&mut source2);
    assert_eq!(target.bytes_added, 175);

    target.clean();
}

#[test]
fn test_consume_multiple_mixed_operations() {
    let mut target = make_tracker(10, 5);

    let mut source1 = make_tracker(100, 200);
    target.consume(&mut source1);
    assert_eq!(target.bytes_added, 110);
    assert_eq!(target.bytes_released, 205);

    let mut source2 = make_tracker(50, 30);
    target.consume(&mut source2);
    assert_eq!(target.bytes_added, 160);
    assert_eq!(target.bytes_released, 235);

    let mut source3 = make_tracker(0, 100);
    target.consume(&mut source3);
    assert_eq!(target.bytes_added, 160);
    assert_eq!(target.bytes_released, 335);

    target.clean();
}

#[test]
fn test_consume_zeroes_source() {
    let mut target = make_tracker(0, 0);
    let mut source = make_tracker(42, 17);

    target.consume(&mut source);

    assert!(source.is_empty());

    target.clean();
}

#[test]
fn test_consume_zero_source_is_noop() {
    let mut target = make_tracker(10, 20);
    let mut source = make_tracker(0, 0);

    target.consume(&mut source);

    assert_eq!(target.bytes_added, 10);
    assert_eq!(target.bytes_released, 20);

    target.clean();
}

#[test]
fn start_stop_records_growth() {
    let mut t = make_tracker(0, 0);
    t.start(1000);
    assert_eq!(t.initial_storage_usage, Some(1000));
    t.stop(1300);
    assert_eq!(t.bytes_added, 300);
    assert_eq!(t.bytes_released, 0);
    assert_eq!(t.initial_storage_usage, None);
}

#[test]
fn start_stop_records_release() {
    let mut t = make_tracker(5, 7);
    t.start(1000);
    t.stop(900);
    assert_eq!(t.bytes_added, 5);
    assert_eq!(t.bytes_released, 107);
}

#[test]
fn start_stop_without_change_records_nothing() {
    let mut t = make_tracker(3, 4);
    t.start(500);
    t.stop(500);
    assert_eq!(t.bytes_added, 3);
    assert_eq!(t.bytes_released, 4);
    assert!(!t.is_empty());
    t.clean();
    assert!(t.is_empty());
}
