use autosort::config::load_table;
use autosort::error::SortError;
use autosort::name::Platform;
use autosort::plan::{classify, join_path, plan_file, sort_files, Step};
use autosort::scan::{read_folder, DirEntryInfo, FileEntry, Listing, Policy};
use autosort::table::read_default_config;

fn file(name: &str) -> FileEntry {
    FileEntry { name: name.to_string(), symlink: false }
}

fn entry(name: &str, is_dir: bool) -> Option<DirEntryInfo> {
    Some(DirEntryInfo { name: name.to_string(), is_dir, is_symlink: false })
}

fn moved(base: &str, name: &str, category: &str) -> Step {
    Step::Move {
        name: name.to_string(),
        category: category.to_string(),
        dir: format!("{}/{}", base, category),
        from: format!("{}/{}", base, name),
        to: format!("{}/{}/{}", base, category, name),
    }
}

fn skipped(base: &str, name: &str) -> Step {
    Step::Skip { path: format!("{}/{}", base, name) }
}

#[test]
fn join_path_puts_a_slash_between() {
    assert_eq!(join_path("inbox", "a.txt", Platform::Unix), "inbox/a.txt");
    assert_eq!(join_path("/tmp/x", "Documents", Platform::Unix), "/tmp/x/Documents");
    assert_eq!(join_path("", "a", Platform::Unix), "/a");
    assert_eq!(join_path("dir/", "a", Platform::Unix), "dir//a");
}

#[test]
fn join_path_puts_a_backslash_between_on_windows() {
    assert_eq!(join_path("C:\\inbox", "a.txt", Platform::Windows), "C:\\inbox\\a.txt");
    assert_eq!(join_path("inbox", "Documents", Platform::Windows), "inbox\\Documents");
}

#[test]
fn plan_is_written_with_the_separator_of_the_platform() {
    let table = read_default_config(Platform::Windows);
    let plan = sort_files(&vec![file("report.pdf"), file("data")], &table, "C:\\inbox");
    assert_eq!(
        plan,
        vec![
            Step::Move {
                name: "report.pdf".to_string(),
                category: "Documents".to_string(),
                dir: "C:\\inbox\\Documents".to_string(),
                from: "C:\\inbox\\report.pdf".to_string(),
                to: "C:\\inbox\\Documents\\report.pdf".to_string(),
            },
            Step::Skip { path: "C:\\inbox\\data".to_string() },
        ]
    );
}

#[test]
fn known_extension_gets_its_category() {
    let table = read_default_config(Platform::Unix);
    assert_eq!(classify("report.pdf", &table), Ok("Documents".to_string()));
    assert_eq!(classify("deck.pptx", &table), Ok("Slides".to_string()));
    assert_eq!(classify("pic.jpeg", &table), Ok("Pictures".to_string()));
    assert_eq!(classify("sheet.xls", &table), Ok("Spreadsheets".to_string()));
    assert_eq!(classify("backup.tar.gz", &table), Ok("Compressed".to_string()));
    assert_eq!(classify("setup.exe", &table), Ok("Applications".to_string()));
}

#[test]
fn unknown_extension_gets_the_fallback_category() {
    let table = read_default_config(Platform::Unix);
    assert_eq!(classify("notes.md", &table), Ok("Others".to_string()));
    assert_eq!(classify("photo.JPG", &table), Ok("Others".to_string()));
    assert_eq!(classify("trailing.", &table), Ok("Others".to_string()));
}

#[test]
fn file_without_extension_is_not_classified() {
    let table = read_default_config(Platform::Unix);
    assert_eq!(classify("data", &table), Err(SortError::NoExtension));
    assert_eq!(classify("Makefile", &table), Err(SortError::NoExtension));
    assert_eq!(classify("", &table), Err(SortError::NoExtension));
}

#[test]
fn name_with_leading_dot_is_classified_by_what_follows_the_dot() {
    let table = read_default_config(Platform::Unix);
    assert_eq!(classify(".bashrc", &table), Ok("Others".to_string()));
    assert_eq!(classify(".pdf", &table), Ok("Documents".to_string()));
    assert_eq!(classify(".x", &table), Ok("Others".to_string()));
}

#[test]
fn single_dot_file_goes_to_others_under_the_default_table() {
    let plan = sort_files(&vec![file(".bashrc")], &read_default_config(Platform::Unix), "/t");
    assert_eq!(plan, vec![moved("/t", ".bashrc", "Others")]);
}

#[test]
fn files_after_a_skipped_one_are_still_moved() {
    let table = read_default_config(Platform::Unix);
    let plan = sort_files(&vec![file("data"), file(".x"), file(".pdf"), file("a.txt")], &table, "t");
    assert_eq!(
        plan,
        vec![
            skipped("t", "data"),
            moved("t", ".x", "Others"),
            moved("t", ".pdf", "Documents"),
            moved("t", "a.txt", "Documents"),
        ]
    );
}

#[test]
fn custom_table_decides_the_category() {
    let table = load_table(Some("md:Notes\nJPG:Photos"), Platform::Unix);
    assert_eq!(classify("readme.md", &table), Ok("Notes".to_string()));
    assert_eq!(classify("photo.JPG", &table), Ok("Photos".to_string()));
    assert_eq!(classify("photo.jpg", &table), Ok("Others".to_string()));
    assert_eq!(classify("report.pdf", &table), Ok("Others".to_string()));
}

#[test]
fn step_for_a_known_extension_moves_into_the_category_folder() {
    let table = read_default_config(Platform::Unix);
    let step = plan_file(&file("report.pdf"), &table, "/home/me/inbox");
    assert_eq!(
        step,
        Step::Move {
            name: "report.pdf".to_string(),
            category: "Documents".to_string(),
            dir: "/home/me/inbox/Documents".to_string(),
            from: "/home/me/inbox/report.pdf".to_string(),
            to: "/home/me/inbox/Documents/report.pdf".to_string(),
        }
    );
}

#[test]
fn step_for_an_unknown_extension_moves_into_others() {
    let table = read_default_config(Platform::Unix);
    let step = plan_file(&file("notes.md"), &table, "inbox");
    assert_eq!(
        step,
        Step::Move {
            name: "notes.md".to_string(),
            category: "Others".to_string(),
            dir: "inbox/Others".to_string(),
            from: "inbox/notes.md".to_string(),
            to: "inbox/Others/notes.md".to_string(),
        }
    );
}

#[test]
fn step_for_a_file_without_extension_only_reports() {
    let table = read_default_config(Platform::Unix);
    assert_eq!(plan_file(&file("data"), &table, "inbox"), Step::Skip { path: "inbox/data".to_string() });
}

#[test]
fn plan_has_one_step_for_each_file_in_order() {
    let table = read_default_config(Platform::Unix);
    let files = vec![file("b.txt"), file("Makefile"), file("a.zip"), file("c.unknown")];
    let plan = sort_files(&files, &table, "t");
    assert_eq!(
        plan,
        vec![
            moved("t", "b.txt", "Documents"),
            skipped("t", "Makefile"),
            moved("t", "a.zip", "Compressed"),
            moved("t", "c.unknown", "Others"),
        ]
    );
}

#[test]
fn plan_of_no_files_is_empty() {
    assert!(sort_files(&vec![], &read_default_config(Platform::Unix), "t").is_empty());
}

#[test]
fn default_table_run_over_three_files() {
    let listing = Listing::Entries(vec![
        entry("report.pdf", false),
        entry("photo.JPG", false),
        entry("data", false),
    ]);
    let files = read_folder(&listing, Policy::new(None, None)).unwrap();
    let plan = sort_files(&files, &load_table(None, Platform::Unix), "target");
    assert_eq!(
        plan,
        vec![
            moved("target", "report.pdf", "Documents"),
            moved("target", "photo.JPG", "Others"),
            skipped("target", "data"),
        ]
    );
}

#[test]
fn hidden_file_stays_when_hidden_files_are_ignored() {
    let listing = Listing::Entries(vec![entry(".secret.txt", false)]);
    let files = read_folder(&listing, Policy::new(Some(true), None)).unwrap();
    assert!(files.is_empty());
    assert!(sort_files(&files, &read_default_config(Platform::Unix), "target").is_empty());
}

#[test]
fn hidden_file_moves_to_documents_when_hidden_files_are_taken() {
    let listing = Listing::Entries(vec![entry(".secret.txt", false)]);
    let files = read_folder(&listing, Policy::new(Some(false), None)).unwrap();
    let plan = sort_files(&files, &read_default_config(Platform::Unix), "target");
    assert_eq!(plan, vec![moved("target", ".secret.txt", "Documents")]);
}

/// The directory as a list of entries after the moves of `plan`.
fn after_run(before: &[(String, bool)], plan: &[Step]) -> Vec<(String, bool)> {
    let mut now: Vec<(String, bool)> = before.to_vec();
    for step in plan {
        if let Step::Move { name, category, .. } = step {
            now.retain(|(n, dir)| *dir || n != name);
            if !now.iter().any(|(n, _)| n == category) {
                now.push((category.clone(), true));
            }
        }
    }
    now
}

fn listing_of(entries: &[(String, bool)]) -> Listing {
    Listing::Entries(entries.iter().map(|(name, dir)| entry(name, *dir)).collect())
}

#[test]
fn second_run_moves_nothing() {
    let before: Vec<(String, bool)> = [
        ("report.pdf", false),
        ("photo.JPG", false),
        ("data", false),
        (".secret.txt", false),
        ("Pictures", true),
        ("song.mp3", false),
        ("pic.png", false),
    ]
    .iter()
    .map(|(n, d)| (n.to_string(), *d))
    .collect();
    let table = read_default_config(Platform::Unix);
    let policy = Policy::new(None, None);
    let first = sort_files(&read_folder(&listing_of(&before), policy).unwrap(), &table, "t");
    assert_eq!(first.iter().filter(|s| matches!(s, Step::Move { .. })).count(), 4);
    let after = after_run(&before, &first);
    let mut names: Vec<&str> = after.iter().map(|(n, _)| n.as_str()).collect();
    names.sort();
    assert_eq!(names, vec![".secret.txt", "Documents", "Others", "Pictures", "data"]);
    let second = sort_files(&read_folder(&listing_of(&after), policy).unwrap(), &table, "t");
    assert_eq!(second, vec![skipped("t", "data")]);
    assert_eq!(after_run(&after, &second), after);
}
