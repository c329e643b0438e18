use rail::bookmarks::{
    bookmark_name, check_file_version, make_bookmark, replacement_file, sorted_by_created,
    without_id, Bookmark, BookmarksFile,
};
use rail::error::RailError;

fn bm(id: &str, name: &str, created_at: u64) -> Bookmark {
    Bookmark {
        id: id.to_string(),
        name: name.to_string(),
        frequency_hz: 98_800_000,
        created_at,
    }
}

#[test]
fn default_file_is_current_and_empty() {
    let f = BookmarksFile::default();
    assert_eq!(f.version, 1);
    assert!(f.bookmarks.is_empty());
}

#[test]
fn future_version_is_refused() {
    let f = BookmarksFile { version: 2, bookmarks: vec![] };
    match check_file_version(f) {
        Err(RailError::CaptureError(msg)) => {
            assert!(msg.contains("newer than supported"), "got: {msg}");
            assert_eq!(msg, "bookmarks.json version 2 is newer than supported (1)");
        }
        Err(other) => panic!("expected CaptureError, got {other:?}"),
        Ok(_) => panic!("expected CaptureError"),
    }
    let ok = check_file_version(BookmarksFile { version: 1, bookmarks: vec![bm("a", "A", 1)] })
        .unwrap();
    assert_eq!(ok.bookmarks.len(), 1);
    assert!(check_file_version(BookmarksFile { version: 0, bookmarks: vec![] }).is_ok());
}

#[test]
fn names_are_trimmed_and_not_empty() {
    assert_eq!(bookmark_name("  BBC R4 \t").unwrap(), "BBC R4");
    assert_eq!(
        bookmark_name(" \n\t ").unwrap_err(),
        RailError::InvalidParameter("bookmark name empty".to_string())
    );
    assert!(bookmark_name("").is_err());
}

#[test]
fn new_bookmark_ids_and_times() {
    let b = make_bookmark("BBC".to_string(), 98_800_000, 1_700_000_000_123_456_789);
    assert_eq!(b.id, format!("{:x}", 1_700_000_000_123_456_789u128));
    assert_eq!(b.created_at, 1_700_000_000);
    assert_eq!(b.name, "BBC");
    assert_eq!(b.frequency_hz, 98_800_000);
}

#[test]
fn remove_by_id_is_idempotent() {
    let list = vec![bm("a", "A", 3), bm("b", "B", 1), bm("a", "A2", 2)];
    let once = without_id(list, "a");
    assert_eq!(once.len(), 1);
    assert_eq!(once[0].id, "b");
    let twice = without_id(once, "a");
    assert_eq!(twice.len(), 1);
    let missing = without_id(twice, "zzz");
    assert_eq!(missing.len(), 1);
}

#[test]
fn sort_is_by_creation_and_stable() {
    let list = vec![bm("c", "C", 30), bm("a1", "A1", 10), bm("b", "B", 20), bm("a2", "A2", 10)];
    let sorted = sorted_by_created(list);
    let ids: Vec<&str> = sorted.iter().map(|b| b.id.as_str()).collect();
    assert_eq!(ids, vec!["a1", "a2", "b", "c"]);
}

#[test]
fn replacement_is_sorted_current_version() {
    let f = replacement_file(vec![bm("x", "X", 5), bm("y", "Y", 1)]);
    assert_eq!(f.version, 1);
    assert_eq!(f.bookmarks[0].id, "y");
    assert_eq!(f.bookmarks[1].id, "x");
}
