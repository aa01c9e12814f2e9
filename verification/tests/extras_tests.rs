use backend_service::attachments::{check_access, rename_file, should_be_cleaned, AttachmentLifecycle};
use backend_service::car_class_to_body_type::{insert_text_sorted, map_classes_to_body_types};
use backend_service::errors::AppError;
use backend_service::exlogging::latest_log_lines;
use backend_service::file_summary::{age_of, insert_by_time, summarize_files, Age, FileEntry};
use backend_service::license_manager::{
    find_latest_license_file, is_license_file_name, license_file_name,
};
use backend_service::seasons::{is_date_in_season, DayOfYear};
use backend_service::table_processing::{get_csv_header, get_unique_values_iter};
use backend_service::text::{
    chars_of, ends_with, find_last_char, split_fields, starts_with, strip_char,
};
use indexmap::IndexMap;

fn row(cells: &[(&str, &str)]) -> IndexMap<String, String> {
    let mut row = IndexMap::new();
    for (key, value) in cells {
        row.insert(key.to_string(), value.to_string());
    }
    row
}

fn strings(items: &[&str]) -> Vec<String> {
    items.iter().map(|s| s.to_string()).collect()
}

fn entry(name: &str, modified: i64) -> FileEntry {
    FileEntry { name: name.to_string(), modified }
}

fn names(files: &Vec<FileEntry>) -> Vec<String> {
    files.iter().map(|f| f.name.clone()).collect()
}

fn day(month: u32, day: u32) -> DayOfYear {
    DayOfYear { month, day }
}

#[test]
fn the_latest_statements_of_a_log() {
    let log = b"one\n  two  \n\n   \nthree\nfour".to_vec();
    assert_eq!(latest_log_lines(2, &log), strings(&["three", "four"]));
    assert_eq!(latest_log_lines(10, &log), strings(&["one", "two", "three", "four"]));
    assert_eq!(latest_log_lines(0, &log), Vec::<String>::new());
    assert_eq!(latest_log_lines(3, &Vec::new()), Vec::<String>::new());
    assert_eq!(latest_log_lines(1, &b"last\n".to_vec()), strings(&["last"]));
}

#[test]
fn statements_that_are_no_text_are_passed_over() {
    let mut log = b"good\n".to_vec();
    log.extend_from_slice(&[0xff, 0xfe, b'\n']);
    log.extend_from_slice("добре\r\n".as_bytes());
    assert_eq!(latest_log_lines(2, &log), strings(&["good", "добре"]));
}

#[test]
fn ages_of_changes() {
    assert_eq!(age_of(1000, 1000), Age::LastDay);
    assert_eq!(age_of(1000, 1000 + 86_399), Age::LastDay);
    assert_eq!(age_of(1000, 1000 + 86_400), Age::LastWeek);
    assert_eq!(age_of(1000, 1000 + 604_799), Age::LastWeek);
    assert_eq!(age_of(1000, 1000 + 604_800), Age::Older);
    assert_eq!(age_of(2000, 1000), Age::LastDay);
    assert_eq!(age_of(i64::MIN, i64::MAX), Age::Older);
}

#[test]
fn files_are_summed_up_newest_first() {
    let now = 10_000_000;
    let files = vec![
        entry("old", now - 700_000),
        entry("today-a", now - 100),
        entry("week", now - 90_000),
        entry("today-b", now - 50),
        entry("older", now - 800_000),
        entry("today-c", now - 100),
    ];
    let summary = summarize_files(&files, now);
    assert_eq!(
        names(&summary.all_files),
        strings(&["today-b", "today-a", "today-c", "week", "old", "older"])
    );
    assert_eq!(names(&summary.modified_last_24h), strings(&["today-b", "today-a", "today-c"]));
    assert_eq!(names(&summary.modified_1w_excl_24h), strings(&["week"]));
    assert_eq!(names(&summary.older_than_1w), strings(&["old", "older"]));
}

#[test]
fn a_file_goes_behind_those_of_its_time() {
    let mut files = vec![entry("a", 30), entry("b", 20), entry("c", 10)];
    insert_by_time(&mut files, entry("x", 20));
    assert_eq!(names(&files), strings(&["a", "b", "x", "c"]));
    insert_by_time(&mut files, entry("y", 40));
    insert_by_time(&mut files, entry("z", 5));
    assert_eq!(names(&files), strings(&["y", "a", "b", "x", "c", "z"]));
}

#[test]
fn uploaded_files_are_renamed() {
    assert_eq!(rename_file("report.pdf", "AB12"), "AB12__report.pdf");
    assert_eq!(rename_file("archive.tar.gz", "ID"), "ID__archive.tar.gz");
    assert_eq!(rename_file("noextension", "ID"), "ID__noextension");
    assert_eq!(rename_file("trailing.", "ID"), "ID__trailing");
    assert_eq!(rename_file(".hidden", "ID"), "ID__.hidden");
    assert_eq!(
        rename_file("a-very-long-name-of-more-than-twenty.txt", "ID"),
        "ID__a-very-long-name-of-.txt"
    );
    assert_eq!(
        rename_file("дуже-довга-назва-файлу-тут.csv", "X"),
        "X__дуже-довга-назва-фай.csv"
    );
    assert_eq!(rename_file("", "ID"), "ID__");
}

#[test]
fn stale_attachments_are_cleaned() {
    let temp = AttachmentLifecycle::default();
    assert_eq!(temp, AttachmentLifecycle::TempJustUploaded);
    assert!(!should_be_cleaned(temp, 0, 1800));
    assert!(should_be_cleaned(temp, 0, 1801));
    assert!(!should_be_cleaned(AttachmentLifecycle::SupportRequestActive, 0, i64::MAX));
    assert!(!should_be_cleaned(AttachmentLifecycle::MarkedForDeletionAfter(60), 100, 160));
    assert!(should_be_cleaned(AttachmentLifecycle::MarkedForDeletionAfter(60), 100, 161));
    assert!(should_be_cleaned(AttachmentLifecycle::MarkedForDeletionAfter(60), i64::MIN, i64::MAX));
}

#[test]
fn attachments_belong_to_their_owner() {
    assert!(check_access("a@b.c", false, Some("a@b.c"), false).is_ok());
    assert!(matches!(check_access("a@b.c", false, Some("x@y.z"), false), Err(AppError::Forbidden)));
    assert!(check_access("a@b.c", false, None, false).is_ok());
    assert!(matches!(check_access("a@b.c", true, Some("x@y.z"), false), Err(AppError::Forbidden)));
    assert!(check_access("a@b.c", true, Some("x@y.z"), true).is_ok());
    assert!(matches!(check_access("a@b.c", false, Some("x@y.z"), true), Err(AppError::Forbidden)));
}

#[test]
fn licence_files_by_name() {
    assert!(is_license_file_name("license_20260102030405.jwt"));
    assert!(is_license_file_name("old.license"));
    assert!(!is_license_file_name("notes.txt"));
    assert!(!is_license_file_name("jwt"));
    assert_eq!(license_file_name("20260102030405"), "license_20260102030405.jwt");
}

#[test]
fn the_latest_licence_file() {
    let files = vec![
        ("license_1.jwt".to_string(), 100),
        ("readme.txt".to_string(), 999),
        ("license_2.jwt".to_string(), 300),
        ("license_3.jwt".to_string(), 300),
        ("token.jwt".to_string(), 500),
        ("license_4.jwt".to_string(), 200),
    ];
    assert_eq!(find_latest_license_file(&files).unwrap(), "license_2.jwt");
    let none = vec![("readme.txt".to_string(), 1)];
    assert!(matches!(find_latest_license_file(&none), Err(AppError::LicenseNotFound)));
    let epoch = vec![("license_0.jwt".to_string(), 0)];
    assert_eq!(find_latest_license_file(&epoch).unwrap(), "license_0.jwt");
}

#[test]
fn seasons_within_and_across_the_year() {
    let april = day(4, 1);
    let november = day(11, 1);
    assert!(is_date_in_season(day(4, 1), april, november));
    assert!(is_date_in_season(day(7, 15), april, november));
    assert!(!is_date_in_season(day(11, 1), april, november));
    assert!(!is_date_in_season(day(1, 10), april, november));
    assert!(is_date_in_season(day(11, 1), november, april));
    assert!(is_date_in_season(day(1, 10), november, april));
    assert!(is_date_in_season(day(3, 31), november, april));
    assert!(!is_date_in_season(day(4, 1), november, april));
    assert!(!is_date_in_season(day(7, 15), november, april));
}

#[test]
fn the_header_of_a_table_from_its_first_line() {
    assert_eq!(
        get_csv_header(" name , \"price\",\"\"note\"\" ,,last"),
        strings(&["name", "price", "note", "", "last"])
    );
    assert_eq!(get_csv_header(""), strings(&[""]));
    assert_eq!(get_csv_header("a,"), strings(&["a", ""]));
}

#[test]
fn header_cells_agree_with_the_standard_library() {
    for line in ["a,b", " \"x\" ,y", "", ",", "\"\",\" \"", "\"a b\"\"", "a,\"b,c\""] {
        let expected: Vec<String> =
            line.split(',').map(|s| s.trim().trim_matches('"').to_string()).collect();
        assert_eq!(get_csv_header(line), expected);
    }
}

#[test]
fn the_values_of_a_column_each_once() {
    let table = vec![
        row(&[("make", "audi"), ("model", "a4")]),
        row(&[("make", "bmw")]),
        row(&[("model", "x5")]),
        row(&[("make", "audi"), ("model", "a6")]),
        row(&[("make", "")]),
    ];
    assert_eq!(get_unique_values_iter(&table, "make"), strings(&["audi", "bmw", ""]));
    assert_eq!(get_unique_values_iter(&table, "year"), Vec::<String>::new());
}

#[test]
fn body_types_by_class() {
    let records = vec![
        strings(&["B", "СЕДАН", "x"]),
        strings(&["C", "КУПЕ"]),
        strings(&["B", "УНИВЕРСАЛ"]),
        strings(&["short"]),
        strings(&["B", "СЕДАН"]),
        strings(&["C", "unknown"]),
        strings(&["B", "ПИКАП"]),
    ];
    assert_eq!(
        map_classes_to_body_types(&records),
        vec![
            ("B".to_string(), strings(&["pickup", "sedan", "wagon"])),
            ("C".to_string(), strings(&["coupe", "unknown"])),
        ]
    );
    assert_eq!(map_classes_to_body_types(&Vec::new()), Vec::new());
}

#[test]
fn sorted_texts_hold_each_text_once() {
    let mut list = strings(&["b", "d"]);
    insert_text_sorted(&mut list, "c".to_string());
    insert_text_sorted(&mut list, "a".to_string());
    insert_text_sorted(&mut list, "e".to_string());
    insert_text_sorted(&mut list, "c".to_string());
    assert_eq!(list, strings(&["a", "b", "c", "d", "e"]));
}

#[test]
fn beginnings_and_ends_of_texts() {
    assert!(starts_with("license_1.jwt", "license_"));
    assert!(!starts_with("lic", "license_"));
    assert!(starts_with("abc", ""));
    assert!(ends_with("a.csv", ".csv"));
    assert!(!ends_with("csv", ".csv"));
    assert!(ends_with("", ""));
}

#[test]
fn fields_between_separators() {
    assert_eq!(split_fields(&chars_of("a.b..c"), '.'), strings(&["a", "b", "", "c"]));
    assert_eq!(split_fields(&chars_of(""), '.'), strings(&[""]));
    assert_eq!(split_fields(&chars_of("."), '.'), strings(&["", ""]));
    assert_eq!(strip_char("\"\"a\"b\"", '"'), "a\"b");
    assert_eq!(strip_char("\"\"\"", '"'), "");
    assert_eq!(find_last_char(&chars_of("a.b.c"), '.'), Some(3));
    assert_eq!(find_last_char(&chars_of("abc"), '.'), None);
}
