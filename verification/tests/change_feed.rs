use synker::changes::get_files_changed_since;
use synker::types::{ChangeType, FileMetadata, FilePermissions, Timestamp};

const ALICE: u128 = 1;
const BOB: u128 = 2;

fn at(seconds: i64, nanos: u32) -> Timestamp {
    Timestamp { seconds, nanos }
}

fn record(id: u128, owner_id: u128, path: &str, modified_at: Timestamp) -> FileMetadata {
    FileMetadata {
        id,
        name: path.trim_start_matches('/').to_string(),
        path: path.to_string(),
        size: 3,
        mime_type: "text/plain".to_string(),
        checksum: "abc".to_string(),
        created_at: at(0, 0),
        modified_at,
        owner_id,
        is_directory: false,
        parent_id: None,
        permissions: FilePermissions::all(),
    }
}

fn store() -> Vec<FileMetadata> {
    vec![
        record(10, ALICE, "/c", at(300, 0)),
        record(11, BOB, "/bob", at(250, 0)),
        record(12, ALICE, "/a", at(100, 0)),
        record(13, ALICE, "/b", at(200, 5)),
        record(14, ALICE, "/b2", at(200, 4)),
    ]
}

#[test]
fn feed_is_in_ascending_order_of_modification() {
    let changes = get_files_changed_since(&store(), ALICE, at(0, 0));
    let ids: Vec<u128> = changes.iter().map(|change| change.file_id).collect();
    assert_eq!(ids, [12, 14, 13, 10]);
    for pair in changes.windows(2) {
        let (earlier, later) = (pair[0].timestamp, pair[1].timestamp);
        assert!((earlier.seconds, earlier.nanos) <= (later.seconds, later.nanos));
    }
}

#[test]
fn feed_holds_only_what_the_owner_changed_after_the_cursor() {
    let changes = get_files_changed_since(&store(), ALICE, at(200, 4));
    let ids: Vec<u128> = changes.iter().map(|change| change.file_id).collect();
    assert_eq!(ids, [13, 10]);
    let changes = get_files_changed_since(&store(), BOB, at(0, 0));
    let ids: Vec<u128> = changes.iter().map(|change| change.file_id).collect();
    assert_eq!(ids, [11]);
    assert!(get_files_changed_since(&store(), 3, at(0, 0)).is_empty());
}

#[test]
fn feed_is_empty_at_the_latest_modification() {
    assert!(get_files_changed_since(&store(), ALICE, at(300, 0)).is_empty());
    assert!(get_files_changed_since(&store(), ALICE, at(301, 0)).is_empty());
    assert_eq!(get_files_changed_since(&store(), ALICE, at(299, 999_999_999)).len(), 1);
    assert!(get_files_changed_since(&Vec::new(), ALICE, at(0, 0)).is_empty());
}

#[test]
fn feed_reports_every_change_as_modified_with_the_record() {
    let changes = get_files_changed_since(&store(), ALICE, at(250, 0));
    assert_eq!(changes.len(), 1);
    let change = &changes[0];
    assert_eq!(change.file_id, 10);
    assert_eq!(change.change_type, ChangeType::Modified);
    assert_eq!(change.path, "/c");
    assert_eq!(change.timestamp, at(300, 0));
    let snapshot = change.metadata.as_ref().unwrap();
    assert_eq!(snapshot.id, 10);
    assert_eq!(snapshot.path, "/c");
    assert_eq!(snapshot.checksum, "abc");
    assert_eq!(snapshot.owner_id, ALICE);
    assert_eq!(snapshot.modified_at, at(300, 0));
}

#[test]
fn feed_keeps_records_with_the_same_time() {
    let records = vec![
        record(1, ALICE, "/x", at(5, 0)),
        record(2, ALICE, "/y", at(5, 0)),
        record(3, ALICE, "/z", at(4, 0)),
        record(1, ALICE, "/x", at(5, 0)),
    ];
    let changes = get_files_changed_since(&records, ALICE, at(0, 0));
    let ids: Vec<u128> = changes.iter().map(|change| change.file_id).collect();
    assert_eq!(ids, [3, 1, 2, 1]);
}

#[test]
fn feed_after_saves_at_increasing_times() {
    let mut records = Vec::new();
    for step in 1..=20i64 {
        records.push(record(step as u128, ALICE, &format!("/f{}", step), at(1000 + step, 0)));
    }
    let changes = get_files_changed_since(&records, ALICE, at(1000, 0));
    assert_eq!(changes.len(), 20);
    assert!(changes.windows(2).all(|pair| pair[0].timestamp.seconds <= pair[1].timestamp.seconds));
    assert!(get_files_changed_since(&records, ALICE, at(1020, 0)).is_empty());
    assert_eq!(get_files_changed_since(&records, ALICE, at(1010, 0)).len(), 10);
}

#[test]
fn timestamps_compare_by_seconds_then_nanoseconds() {
    assert!(at(2, 0).is_after(&at(1, 999_999_999)));
    assert!(at(1, 5).is_after(&at(1, 4)));
    assert!(!at(1, 5).is_after(&at(1, 5)));
    assert!(!at(1, 5).is_after(&at(2, 0)));
    assert!(at(-1, 0).is_after(&at(-2, 7)));
    assert_eq!(at(10, 3).plus_seconds(5), Some(at(15, 3)));
    assert_eq!(at(10, 3).plus_seconds(-20), Some(at(-10, 3)));
    assert_eq!(at(i64::MAX, 0).plus_seconds(1), None);
}
