use ops_seller::progress::ProgressRecord;

#[test]
fn fresh_record_is_empty() {
    let rec = ProgressRecord::new();
    assert_eq!(rec.len(), 0);
    assert!(!rec.contains(0));
    assert!(!rec.contains(100));
}

#[test]
fn record_is_idempotent() {
    let mut rec = ProgressRecord::new();
    rec.record(100);
    assert!(rec.contains(100));
    assert_eq!(rec.len(), 1);
    rec.record(100);
    assert_eq!(rec.len(), 1, "recording an id twice is a no-op");
    rec.record(7);
    assert_eq!(rec.len(), 2);
    assert!(rec.contains(7));
    assert!(rec.contains(100));
}

#[test]
fn to_vec_keeps_first_recorded_order() {
    let mut rec = ProgressRecord::new();
    rec.record(5);
    rec.record(1);
    rec.record(5);
    rec.record(9);
    assert_eq!(rec.to_vec(), vec![5, 1, 9]);
}
