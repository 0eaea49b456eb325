use argus::index::{
    current_timestamp, get_file_timestamp, FileMeta, Index, IndexEntry, IndexError, IndexRead,
    INDEX_VERSION,
};
use argus::types::FileType;
use std::time::{Duration, SystemTime, UNIX_EPOCH};

fn entry(path: &str, text: &str, modified: u64, size: u64) -> IndexEntry {
    IndexEntry::new(path.into(), FileType::Text, text.into(), modified, size)
}

#[test]
fn test_current_timestamp_nonzero() {
    assert!(current_timestamp() > 0);
}

#[test]
fn test_stale_entry_detection() {
    let entry = entry("test.txt", "content", 1000, 100);
    assert!(!entry.is_stale(1000, 100));
    assert!(entry.is_stale(1001, 100));
    assert!(entry.is_stale(1000, 101));
}

#[test]
fn test_get_valid_entry() {
    let mut index = Index::new("/d".into());
    index.upsert_entry(entry("/d/test.txt", "Hello", 1000, 5));
    let same = Some(FileMeta { modified: 1000, size: 5 });
    assert!(index.get_valid_entry("/d/test.txt", same).is_some());
    let modified = Some(FileMeta { modified: 1000, size: 22 });
    assert!(index.get_valid_entry("/d/test.txt", modified).is_none());
    let touched = Some(FileMeta { modified: 1001, size: 5 });
    assert!(index.get_valid_entry("/d/test.txt", touched).is_none());
}

#[test]
fn test_get_valid_entry_nonexistent_file() {
    let mut index = Index::new("/d".into());
    index.upsert_entry(entry("/d/ghost.txt", "text", 123, 4));
    assert!(index.get_valid_entry("/d/ghost.txt", None).is_none());
}

#[test]
fn test_load_missing_file() {
    match Index::load("/d/does_not_exist.json", IndexRead::Missing) {
        Err(IndexError::NotFound(p)) => assert_eq!(p, "/d/does_not_exist.json"),
        _ => panic!("expected NotFound"),
    }
}

#[test]
fn test_load_invalid_json() {
    let read = IndexRead::Malformed("expected value".into());
    assert!(matches!(Index::load("/d/bad.json", read), Err(IndexError::ParseError(_))));
    let read = IndexRead::Unreadable("denied".into());
    assert!(matches!(Index::load("/d/bad.json", read), Err(IndexError::IoError(_))));
}

#[test]
fn test_load_version_mismatch() {
    let index = Index::without_entries(999, "/d".into(), 0, 0);
    match Index::load("/d/index.json", IndexRead::Parsed(index)) {
        Err(IndexError::VersionMismatch { expected, found }) => {
            assert_eq!(expected, INDEX_VERSION);
            assert_eq!(found, 999);
        }
        _ => panic!("expected VersionMismatch"),
    }
}

#[test]
fn test_load_index() {
    let mut index = Index::new("/d".into());
    index.upsert_entry(entry("/d/test.txt", "Hello World", 12345, 11));
    let loaded = Index::load("/d/.argus_index.json", IndexRead::Parsed(index)).unwrap_or_else(|e| {
        panic!("{}", e.message())
    });
    assert_eq!(loaded.len(), 1);
    assert_eq!(loaded.version, INDEX_VERSION);
}

#[test]
fn test_index_error_display_variants() {
    let e = IndexError::NotFound("/x".into());
    assert_eq!(e.message(), "Index file not found: /x");
    let e = IndexError::IoError("disk".into());
    assert_eq!(e.message(), "IO error: disk");
    let e = IndexError::ParseError("bad".into());
    assert_eq!(e.message(), "Failed to parse index: bad");
    let e = IndexError::VersionMismatch { expected: 1, found: 2 };
    assert_eq!(e.message(), "Index version mismatch: expected 1, found 2");
}

#[test]
fn test_is_empty_and_len() {
    let mut index = Index::new("/tmp".into());
    assert!(index.is_empty());
    assert_eq!(index.len(), 0);
    index.upsert_entry(entry("/tmp/a.txt", "t", 0, 0));
    assert!(!index.is_empty());
    assert_eq!(index.len(), 1);
}

#[test]
fn test_upsert_replaces_entry() {
    let mut index = Index::new("/tmp".into());
    index.upsert_entry(entry("/tmp/a.txt", "first", 0, 1));
    index.upsert_entry(entry("/tmp/a.txt", "second", 1, 2));
    assert_eq!(index.len(), 1);
    assert_eq!(index.get("/tmp/a.txt").unwrap().extracted_text, "second");
}

#[test]
fn paths_with_the_same_components_share_an_entry() {
    let mut index = Index::new("/tmp".into());
    index.upsert_entry(entry("/tmp/a.txt", "first", 0, 1));
    index.upsert_entry(entry("/tmp//./a.txt", "second", 1, 2));
    assert_eq!(index.len(), 1);
    assert_eq!(index.get("/tmp/a.txt/").unwrap().extracted_text, "second");
    assert!(index.get("tmp/a.txt").is_none());
    assert!(index.get("./tmp/a.txt").is_none());
}

#[test]
fn test_prune_missing_removes_deleted() {
    let mut index = Index::new("/d".into());
    index.upsert_entry(entry("/d/exists.txt", "hi", 0, 2));
    index.upsert_entry(entry("/d/missing.txt", "nope", 0, 0));
    index.upsert_entry(entry("/d/also.txt", "yes", 0, 3));
    assert_eq!(index.len(), 3);
    let present: Vec<bool> = index.paths().iter().map(|p| !p.contains("missing")).collect();
    index.prune_missing(&present);
    assert_eq!(index.len(), 2);
    assert!(index.get("/d/exists.txt").is_some());
    assert!(index.get("/d/missing.txt").is_none());
    assert_eq!(index.get("/d/also.txt").unwrap().extracted_text, "yes");
    assert_eq!(index.paths(), vec!["/d/exists.txt".to_string(), "/d/also.txt".to_string()]);
}

#[test]
fn stamp_changes_the_time_of_the_last_update_alone() {
    let mut index = Index::new_at("/d".into(), 7);
    index.stamp(9);
    assert_eq!(index.created_at, 7);
    assert_eq!(index.updated_at, 9);
}

#[test]
fn test_get_file_timestamp_existing() {
    assert!(get_file_timestamp(Some(SystemTime::now())).is_some());
    let time = UNIX_EPOCH + Duration::from_millis(1_234_999);
    assert_eq!(get_file_timestamp(Some(time)), Some(1234));
}

#[test]
fn test_get_file_timestamp_missing() {
    assert!(get_file_timestamp(None).is_none());
    let before = UNIX_EPOCH - Duration::from_secs(1);
    assert!(get_file_timestamp(Some(before)).is_none());
}

#[test]
fn index_is_rebuilt_from_its_entries_in_any_order() {
    let mut index = Index::new_at("/d".into(), 3);
    for i in 0..5u64 {
        index.upsert_entry(entry(&format!("/d/{i}.txt"), &format!("text {i}"), i, i));
    }
    let mut listed = index.entries.clone();
    listed.reverse();
    let rebuilt =
        Index::from_entries(index.version, index.directory.clone(), 3, index.updated_at, listed);
    assert_eq!(rebuilt.len(), 5);
    for i in 0..5u64 {
        let found = rebuilt.get(&format!("/d/{i}.txt")).unwrap();
        assert_eq!(found.extracted_text, format!("text {i}"));
    }
    assert!(rebuilt.get("/d/5.txt").is_none());
}

#[test]
fn last_entry_listed_for_a_path_counts() {
    let listed = vec![
        ("/d/a.txt".to_string(), entry("/d/a.txt", "old", 1, 1)),
        ("/d//a.txt".to_string(), entry("/d//a.txt", "new", 2, 2)),
    ];
    let index = Index::from_entries(INDEX_VERSION, "/d".into(), 0, 0, listed);
    assert_eq!(index.len(), 1);
    assert_eq!(index.get("/d/./a.txt").unwrap().extracted_text, "new");
}
