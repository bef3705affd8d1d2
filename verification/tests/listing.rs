use dirlist::classify::ColorCategory;
use dirlist::classify::DisplayClass;
use dirlist::classify::FileKind;
use dirlist::listing::EntryRecord;
use dirlist::listing::Metadata;
use dirlist::listing::RenderOutcome;
use dirlist::listing::format_header;
use dirlist::listing::line_text;
use dirlist::listing::process_record;
use dirlist::listing::render_entry;
use dirlist::listing::render_listing;

fn file_record(name: &str, mode: u32) -> EntryRecord {
    EntryRecord::Found {
        name: name.to_string(),
        meta: Metadata { mode, kind: FileKind::RegularFile, modified: None },
    }
}

#[test]
fn renders_one_entry() {
    let meta = Metadata { mode: 0o644, kind: FileKind::RegularFile, modified: None };
    let line = render_entry("notes.md", &meta);
    assert_eq!(line.permissions, "rw-r--r--");
    assert_eq!(line.timestamp, "--- -- --:--:--");
    assert_eq!(line.name.text, "notes.md");
    assert_eq!(line.name.class, DisplayClass::File(ColorCategory::Document));
    assert_eq!(line_text(&line), "rw-r--r-- - --- -- --:--:-- - notes.md");
}

#[test]
fn renders_directory_entry_with_suffix() {
    let meta = Metadata { mode: 0o755, kind: FileKind::Directory, modified: None };
    let line = render_entry("archive.zip", &meta);
    assert_eq!(line.name.text, "archive.zip/");
    assert_eq!(line.name.class, DisplayClass::Directory);
    assert_eq!(line_text(&line), "rwxr-xr-x - --- -- --:--:-- - archive.zip/");
}

#[test]
fn found_record_becomes_a_line() {
    match process_record(&file_record("a.rs", 0o600)) {
        RenderOutcome::Line(l) => {
            assert_eq!(l.permissions, "rw-------");
            assert_eq!(l.name.text, "a.rs");
        }
        RenderOutcome::Report(_) => panic!("a found record must render, not report"),
    }
}

#[test]
fn unreadable_record_becomes_a_report() {
    let rec = EntryRecord::Unreadable { message: "permission denied".to_string() };
    match process_record(&rec) {
        RenderOutcome::Line(_) => panic!("an unreadable record must report, not render"),
        RenderOutcome::Report(m) => assert_eq!(m, "permission denied"),
    }
}

#[test]
fn one_unreadable_entry_of_three() {
    let records = vec![
        file_record("a.rs", 0o644),
        EntryRecord::Unreadable { message: "transient read error".to_string() },
        file_record("b.py", 0o755),
    ];
    let (lines, errors) = render_listing(&records);
    assert_eq!(lines.len(), 2);
    assert_eq!(errors.len(), 1);
    assert_eq!(errors[0], "transient read error");
    assert_eq!(lines[0].name.text, "a.rs");
    assert_eq!(lines[1].name.text, "b.py");
    assert_eq!(lines[1].permissions, "rwxr-xr-x");
}

#[test]
fn empty_directory_yields_nothing() {
    let (lines, errors) = render_listing(&Vec::new());
    assert_eq!(lines.len(), 0);
    assert_eq!(errors.len(), 0);
}

#[test]
fn all_entries_readable_yields_all_lines() {
    let records = vec![file_record("a", 0o644), file_record("b", 0o644)];
    let (lines, errors) = render_listing(&records);
    assert_eq!(lines.len(), 2);
    assert_eq!(errors.len(), 0);
}

#[test]
fn header_joins_permissions_and_path() {
    assert_eq!(format_header(0o755, "/home/user"), "rwxr-xr-x - /home/user");
    assert_eq!(format_header(0o100700, "/tmp"), "rwx------ - /tmp");
}
