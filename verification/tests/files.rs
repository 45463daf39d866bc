use pdf_viewer::listing::{arrange_rows, list_rows, DirEntry, FileRow};
use pdf_viewer::paths::{join_path, parent_path};
use pdf_viewer::reading::{
    admit_size, read_buffer, read_error_message, read_result, reserved_buffer, ReadError,
    MAX_PDF_BYTES,
};
use pdf_viewer::session::Browser;
use pdf_viewer::storage::{err_msg, location_for, FsError, Location};

fn entry(name: &str, is_dir: bool, len: u64) -> DirEntry {
    DirEntry { name: name.to_string(), is_dir, len }
}

fn names(rows: &[FileRow]) -> Vec<&str> {
    rows.iter().map(|row| row.name.as_str()).collect()
}

#[test]
fn joining_puts_one_slash_between() {
    assert_eq!(join_path("/", "a"), "/a");
    assert_eq!(join_path("/a", "b.pdf"), "/a/b.pdf");
    assert_eq!(join_path("/a/", "b"), "/a/b");
    assert_eq!(join_path("", "b"), "/b");
    assert_eq!(join_path("/größe", "é.pdf"), "/größe/é.pdf");
}

#[test]
fn the_parent_ends_before_the_last_slash() {
    assert_eq!(parent_path("/a/b"), "/a");
    assert_eq!(parent_path("/a"), "/");
    assert_eq!(parent_path("/"), "/");
    assert_eq!(parent_path(""), "/");
    assert_eq!(parent_path("a"), "/");
    assert_eq!(parent_path("/a/"), "/a");
    assert_eq!(parent_path("/größe/é"), "/größe");
}

#[test]
fn down_and_up_leads_back() {
    for dir in ["/", "/a", "/a/b c"] {
        assert_eq!(parent_path(&join_path(dir, "Ordner")), dir);
    }
}

#[test]
fn down_and_up_leads_back_from_any_directory_without_a_slash_behind() {
    for dir in ["/", "/a//b", "relative", "//x", "/a/../b"] {
        assert_eq!(parent_path(&join_path(dir, "name")), dir);
    }
    assert_eq!(parent_path(&join_path("/a/", "name")), "/a");
}

#[test]
fn tabs_lead_to_the_three_locations() {
    assert_eq!(location_for(0), Location::User);
    assert_eq!(location_for(1), Location::Airlock);
    assert_eq!(location_for(2), Location::Usb);
    assert_eq!(location_for(3), Location::User);
    assert_eq!(location_for(-1), Location::User);
}

#[test]
fn reports_of_the_file_system_in_words() {
    assert_eq!(err_msg(&FsError::NoMedia), "Not connected");
    assert_eq!(err_msg(&FsError::AccessDenied), "Access denied");
    assert_eq!(err_msg(&FsError::FileNotFound), "Not found");
    assert_eq!(err_msg(&FsError::FileAlreadyExists), "Already exists");
    assert_eq!(err_msg(&FsError::FileInUse), "File is in use");
    assert_eq!(err_msg(&FsError::InvalidPath), "Invalid name");
    assert_eq!(err_msg(&FsError::Other("DiskFull".to_string())), "Error: DiskFull");
}

#[test]
fn only_folders_and_pdfs_are_listed() {
    let rows = list_rows(&vec![
        entry(".", true, 0),
        entry("..", true, 0),
        entry(".hidden.pdf", false, 5),
        entry("notes.txt", false, 5),
        entry("pdf", false, 5),
        entry("Manual.PDF", false, 2048),
        entry("Docs", true, 99),
        entry("", true, 0),
    ]);
    assert_eq!(names(&rows), vec!["", "Docs", "Manual.PDF"]);
    assert_eq!(rows[1].info, "Folder");
    assert!(rows[1].is_folder);
    assert_eq!(rows[2].info, "2.0 KB");
    assert!(!rows[2].is_folder);
}

#[test]
fn folders_come_first_then_names_regardless_of_case() {
    let rows = list_rows(&vec![
        entry("b.pdf", false, 1),
        entry("Zoo", true, 0),
        entry("A.pdf", false, 1),
        entry("apple", true, 0),
        entry("É2.pdf", false, 1),
        entry("é1.pdf", false, 1),
        entry("C.pdf", false, 1),
    ]);
    assert_eq!(
        names(&rows),
        vec!["apple", "Zoo", "A.pdf", "b.pdf", "C.pdf", "é1.pdf", "É2.pdf"]
    );
}

#[test]
fn equal_names_keep_their_order() {
    let rows = list_rows(&vec![
        entry("x.PDF", false, 1),
        entry("X.pdf", false, 2),
        entry("x.pdf", false, 3),
    ]);
    assert_eq!(names(&rows), vec!["x.PDF", "X.pdf", "x.pdf"]);
    let rows = list_rows(&vec![
        entry("x.pdf", false, 3),
        entry("a.pdf", false, 0),
        entry("X.pdf", false, 2),
    ]);
    assert_eq!(names(&rows), vec!["a.pdf", "x.pdf", "X.pdf"]);
}

#[test]
fn listing_sorts_as_the_standard_sort_does() {
    let mut seed = 1u32;
    let mut entries = Vec::new();
    for i in 0..300u64 {
        seed = seed.wrapping_mul(1664525).wrapping_add(1013904223);
        let first = (b'A' + (seed >> 24) as u8 % 26) as char;
        let second = (b'a' + (seed >> 16) as u8 % 3) as char;
        let stem = if seed & 1 == 0 { first } else { first.to_ascii_lowercase() };
        entries.push(entry(&format!("{stem}{second}.pdf"), seed & 2 == 0, i));
    }
    let mut expected: Vec<(bool, String, String)> = entries
        .iter()
        .map(|e| {
            let info = if e.is_dir { "Folder".to_string() } else { format!("{} B", e.len) };
            (e.is_dir, e.name.clone(), info)
        })
        .collect();
    expected.sort_by(|a, b| {
        b.0.cmp(&a.0).then_with(|| a.1.to_lowercase().cmp(&b.1.to_lowercase()))
    });
    let rows = list_rows(&entries);
    let shown: Vec<(bool, String, String)> =
        rows.into_iter().map(|row| (row.is_folder, row.name, row.info)).collect();
    assert_eq!(shown, expected);
}

#[test]
fn lines_go_by_the_given_names_in_lower_case() {
    let entries = vec![
        entry("One", false, 1),
        entry("Two", false, 2),
        entry(".Three", false, 3),
        entry("Four", true, 4),
        entry("Five.pdf", false, 5),
        entry("Six", true, 6),
    ];
    let lowered: Vec<String> = ["b.pdf", "a.pdf", "c.pdf", "z", "five", "y"]
        .iter()
        .map(|name| name.to_string())
        .collect();
    let rows = arrange_rows(&entries, &lowered);
    assert_eq!(names(&rows), vec!["Six", "Four", "Two", "One"]);
    assert_eq!(rows[0].info, "Folder");
    assert_eq!(rows[2].info, "2 B");
    assert!(arrange_rows(&Vec::new(), &Vec::new()).is_empty());
}

#[test]
fn the_browser_tells_where_it_is() {
    let browser = Browser::of_directory("/", &vec![entry("a.pdf", false, 1)], &None);
    assert!(browser.at_root);
    assert_eq!(browser.path, "/");
    assert_eq!(browser.status, "");
    assert_eq!(browser.entries.len(), 1);
    let browser = Browser::of_directory("/a", &Vec::new(), &Some(FsError::NoMedia));
    assert!(!browser.at_root);
    assert_eq!(browser.path, "/a");
    assert_eq!(browser.status, "Not connected");
    assert_eq!(browser.entries.len(), 0);
}

#[test]
fn files_up_to_the_limit_are_admitted() {
    assert!(matches!(admit_size(None), Ok(0)));
    assert!(matches!(admit_size(Some(0)), Ok(0)));
    assert!(matches!(admit_size(Some(MAX_PDF_BYTES)), Ok(16777216)));
    assert!(matches!(admit_size(Some(MAX_PDF_BYTES + 1)), Err(ReadError::TooLarge(16777217))));
}

#[test]
fn the_buffer_has_room_for_the_file() {
    let buffer = read_buffer(Some(1000)).unwrap();
    assert_eq!(buffer.len(), 0);
    assert!(buffer.capacity() >= 1000);
    assert_eq!(read_buffer(None).unwrap().len(), 0);
    assert!(matches!(read_buffer(Some(u64::MAX)), Err(ReadError::TooLarge(u64::MAX))));
}

#[test]
fn failed_reads_are_told_apart() {
    assert!(matches!(reserved_buffer(Vec::new(), false), Err(ReadError::NoMemory)));
    assert_eq!(reserved_buffer(vec![1], true).unwrap(), vec![1]);
    assert!(matches!(read_result(vec![1, 2], false), Err(ReadError::Failed)));
    assert_eq!(read_result(vec![1, 2], true).unwrap(), vec![1, 2]);
}

#[test]
fn a_file_over_the_limit_is_refused_after_reading_too() {
    let limit = 16 * 1024 * 1024;
    assert_eq!(read_result(vec![7; limit], true).unwrap().len(), limit);
    assert!(matches!(read_result(vec![7; limit + 1], true), Err(ReadError::TooLarge(16777217))));
    assert!(matches!(read_result(vec![7; limit + 1], false), Err(ReadError::Failed)));
}

#[test]
fn failed_reads_in_words() {
    assert_eq!(read_error_message(&ReadError::Open(FsError::FileInUse)), "File is in use");
    assert_eq!(
        read_error_message(&ReadError::TooLarge(20 * 1024 * 1024)),
        "This PDF is 20.0 MB — too large to open (limit 16.0 MB)."
    );
    assert_eq!(read_error_message(&ReadError::NoMemory), "Not enough memory to open this PDF");
    assert_eq!(read_error_message(&ReadError::Failed), "Read failed");
}
