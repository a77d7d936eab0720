use ops_seller::progress::ProgressRecord;
use ops_seller::snapshot::{decode, encode, SnapshotError};

fn record_of(ids: &[u64]) -> ProgressRecord {
    let mut rec = ProgressRecord::new();
    for &id in ids {
        rec.record(id);
    }
    rec
}

#[test]
fn encode_exact_bytes() {
    let rec = record_of(&[1, 2, 3]);
    assert_eq!(encode(&rec), b"{\"items\":[1,2,3]}".to_vec());
}

#[test]
fn encode_empty_record() {
    let rec = ProgressRecord::new();
    assert_eq!(encode(&rec), b"{\"items\":[]}".to_vec());
}

#[test]
fn encode_single_id() {
    let rec = record_of(&[42]);
    assert_eq!(encode(&rec), b"{\"items\":[42]}".to_vec());
}

#[test]
fn round_trip_reproduces_membership() {
    let rec = record_of(&[101, 7, 0, 18446744073709551615]);
    let bytes = encode(&rec);
    let back = decode(&bytes).expect("canonical snapshot must decode");
    assert_eq!(back.len(), 4);
    assert!(back.contains(101));
    assert!(back.contains(7));
    assert!(back.contains(0));
    assert!(back.contains(18446744073709551615));
    assert!(!back.contains(1));
    // a second trip writes the same bytes again
    assert_eq!(encode(&back), bytes);
}

#[test]
fn round_trip_empty() {
    let rec = ProgressRecord::new();
    let back = decode(&encode(&rec)).expect("empty snapshot must decode");
    assert_eq!(back.len(), 0);
}

#[test]
fn decode_collapses_duplicates() {
    let back = decode(&b"{\"items\":[5,5,7,5]}".to_vec()).expect("must decode");
    assert_eq!(back.len(), 2);
    assert!(back.contains(5));
    assert!(back.contains(7));
}

#[test]
fn decode_accepts_leading_zeroes() {
    let back = decode(&b"{\"items\":[007]}".to_vec()).expect("must decode");
    assert!(back.contains(7));
}

#[test]
fn decode_rejects_corrupt_documents() {
    let cases: &[&[u8]] = &[
        b"",
        b"{}",
        b"{\"items\":[",
        b"{\"items\":[]",
        b"{\"items\":[1,]}",
        b"{\"items\":[,1]}",
        b"{\"items\":[1 2]}",
        b"{\"items\":[a]}",
        b"{\"items\":[1,,2]}",
        b"[\"items\":[1]}",
        b"{\"item\":[1]}",
        b"{\"items\":[1]} ",
    ];
    for case in cases {
        assert!(
            matches!(decode(&case.to_vec()), Err(SnapshotError::CorruptSnapshot)),
            "should reject {:?}",
            String::from_utf8_lossy(case)
        );
    }
}

#[test]
fn decode_rejects_value_too_large_for_an_id() {
    let r = decode(&b"{\"items\":[18446744073709551616]}".to_vec());
    assert!(matches!(r, Err(SnapshotError::CorruptSnapshot)));
}

#[test]
fn decode_accepts_largest_id() {
    let back = decode(&b"{\"items\":[18446744073709551615]}".to_vec()).expect("must decode");
    assert!(back.contains(u64::MAX));
}
