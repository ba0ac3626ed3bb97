use obiwan::errors::{error_status, ServeError};
use obiwan::listing::{DirectoryEntries, DirectoryEntry};

fn find_entry<'a>(entries: &'a DirectoryEntries, name: &str) -> &'a DirectoryEntry {
    entries
        .items
        .iter()
        .find(|e| e.file_name == name)
        .expect("entry missing")
}

fn check_two_entries(entries: &DirectoryEntries) {
    assert_eq!(entries.len(), 2);
    let file = find_entry(entries, "a.txt");
    assert!(file.is_file);
    assert!(!file.is_directory);
    assert!(!file.is_symlink);
    assert_eq!(file.path, "/media/a.txt");
    let dir = find_entry(entries, "b");
    assert!(!dir.is_file);
    assert!(dir.is_directory);
    assert!(!dir.is_symlink);
    assert_eq!(dir.path, "/media/b");
}

#[test]
fn listing_reports_entries_whatever_the_enumeration_order() {
    let file = || {
        DirectoryEntry::new(
            true,
            false,
            false,
            "a.txt".to_string(),
            "/media/a.txt".to_string(),
        )
    };
    let dir = || {
        DirectoryEntry::new(false, true, false, "b".to_string(), "/media/b".to_string())
    };

    let mut one = DirectoryEntries::new();
    one.push(file());
    one.push(dir());
    check_two_entries(&one);

    let mut other = DirectoryEntries::new();
    other.push(dir());
    other.push(file());
    check_two_entries(&other);
}

#[test]
fn empty_listing_has_no_items() {
    let entries = DirectoryEntries::new();
    assert_eq!(entries.len(), 0);
}

#[test]
fn broken_link_claims_no_type() {
    let e = DirectoryEntry::new(false, false, false, "gone".to_string(), "/media/gone".to_string());
    assert!(!e.is_file && !e.is_directory && !e.is_symlink);
}

#[test]
fn every_failure_maps_to_a_status() {
    assert_eq!(error_status(ServeError::NotFound), Some(404));
    assert_eq!(error_status(ServeError::Unreadable), Some(404));
    assert_eq!(error_status(ServeError::NotADirectory), Some(400));
    assert_eq!(error_status(ServeError::SourceReadError), None);
}
