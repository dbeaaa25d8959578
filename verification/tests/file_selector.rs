use ue::file_selector::{format_file_display, FileEntry};

#[test]
fn format_file_display_shows_filename_and_directory() {
    let result = format_file_display("/home/user/documents/notes.txt");
    assert_eq!(result, "notes.txt (/home/user/documents/)");
}

#[test]
fn format_file_display_handles_root_directory() {
    let result = format_file_display("/test.txt");
    assert_eq!(result, "test.txt (/)");
}

#[test]
fn format_file_display_adds_trailing_slash() {
    let result = format_file_display("/tmp/file.sh");
    assert!(result.contains("(/tmp/)"));
}

#[test]
fn format_file_display_of_root_has_no_name() {
    assert_eq!(format_file_display("/"), " (/)");
}

#[test]
fn file_entry_holds_its_path() {
    let e = FileEntry { path: "/a/b.txt".to_string(), has_unsaved_changes: true };
    assert_eq!(e.path, "/a/b.txt");
    assert!(e.has_unsaved_changes);
}
