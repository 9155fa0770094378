use autosort::error::SortError;
use autosort::name::Platform;
use autosort::scan::{read_folder, DirEntryInfo, FileEntry, Listing, Policy};

fn entry(name: &str, is_dir: bool, is_symlink: bool) -> Option<DirEntryInfo> {
    Some(DirEntryInfo { name: name.to_string(), is_dir, is_symlink })
}

fn file(name: &str, symlink: bool) -> FileEntry {
    FileEntry { name: name.to_string(), symlink }
}

fn sample() -> Listing {
    Listing::Entries(vec![
        entry("report.pdf", false, false),
        entry("Documents", true, false),
        entry(".secret.txt", false, false),
        entry("link.txt", false, true),
        entry(".hidden_dir", true, false),
        entry("linked_dir", true, true),
        entry("data", false, false),
        entry(".hidden_link.png", false, true),
    ])
}

#[test]
fn unset_flags_count_as_true() {
    assert_eq!(Policy::new(None, None), Policy { ignore_hidden: true, ignore_symlink: true });
    assert_eq!(Policy::new(Some(false), None), Policy { ignore_hidden: false, ignore_symlink: true });
    assert_eq!(Policy::new(None, Some(false)), Policy { ignore_hidden: true, ignore_symlink: false });
    assert_eq!(Policy::new(Some(true), Some(true)), Policy { ignore_hidden: true, ignore_symlink: true });
    assert_eq!(Policy::new(Some(false), Some(false)), Policy { ignore_hidden: false, ignore_symlink: false });
}

#[test]
fn default_policy_passes_over_hidden_links_and_directories() {
    let files = read_folder(&sample(), Policy::new(None, None)).unwrap();
    assert_eq!(files, vec![file("report.pdf", false), file("data", false)]);
}

#[test]
fn hidden_files_are_taken_when_asked() {
    let files = read_folder(&sample(), Policy::new(Some(false), None)).unwrap();
    assert_eq!(files, vec![file("report.pdf", false), file(".secret.txt", false), file("data", false)]);
}

#[test]
fn links_are_taken_when_asked() {
    let files = read_folder(&sample(), Policy::new(None, Some(false))).unwrap();
    assert_eq!(files, vec![file("report.pdf", false), file("link.txt", true), file("data", false)]);
}

#[test]
fn directories_are_never_taken() {
    let files = read_folder(&sample(), Policy::new(Some(false), Some(false))).unwrap();
    assert_eq!(
        files,
        vec![
            file("report.pdf", false),
            file(".secret.txt", false),
            file("link.txt", true),
            file("data", false),
            file(".hidden_link.png", true),
        ]
    );
}

#[test]
fn scan_keeps_the_order_of_the_listing() {
    let listing = Listing::Entries(vec![
        entry("c.txt", false, false),
        entry("a.txt", false, false),
        entry("b.txt", false, false),
    ]);
    let files = read_folder(&listing, Policy::new(None, None)).unwrap();
    assert_eq!(files, vec![file("c.txt", false), file("a.txt", false), file("b.txt", false)]);
}

#[test]
fn empty_directory_gives_no_files() {
    let files = read_folder(&Listing::Entries(vec![]), Policy::new(None, None)).unwrap();
    assert!(files.is_empty());
}

#[test]
fn unreadable_directory_fails_the_scan() {
    assert_eq!(read_folder(&Listing::Unreadable, Policy::new(None, None)), Err(SortError::DirectoryUnreadable));
}

#[test]
fn one_unreadable_entry_fails_the_whole_scan() {
    let listing = Listing::Entries(vec![entry("a.txt", false, false), None, entry("b.txt", false, false)]);
    assert_eq!(read_folder(&listing, Policy::new(None, None)), Err(SortError::DirectoryUnreadable));
    let last = Listing::Entries(vec![entry("a.txt", false, false), None]);
    assert_eq!(read_folder(&last, Policy::new(Some(false), Some(false))), Err(SortError::DirectoryUnreadable));
}

#[test]
fn file_path_joins_directory_and_name() {
    assert_eq!(file("report.pdf", false).path("/home/me/inbox", Platform::Unix), "/home/me/inbox/report.pdf");
    assert_eq!(file("data", false).path(".", Platform::Unix), "./data");
    assert_eq!(file("data", false).path("C:\\inbox", Platform::Windows), "C:\\inbox\\data");
}
