use backend_service::cache::DataStorageCache;
use backend_service::errors::AppError;
use backend_service::path_guard::SafeFsError;
use backend_service::utils::{
    all_files_with_extension, common_directory, find_cached_rows, generate_random_id,
    get_file_as_string_by_path, get_file_path_user_common, list_unique_file_names,
    get_file_bytes, get_file_bytes_no_cache, merge_directories, parse_and_cache_rows, safe_read,
    sanitize_alphanumeric_and_dashes, sanitize_alphanumeric_and_dashes_and_dots,
    sanitize_email_for_path, user_catalog_directory_from_email,
    user_deleted_directory_from_email, user_personal_directory_from_email, Lookup, StringExt,
};
use indexmap::IndexMap;

fn row(cells: &[(&str, &str)]) -> IndexMap<String, String> {
    let mut row = IndexMap::new();
    for (key, value) in cells {
        row.insert(key.to_string(), value.to_string());
    }
    row
}

fn strings(items: &[&str]) -> Vec<String> {
    items.iter().map(|s| s.to_string()).collect()
}

#[test]
fn test_merge_directories() {
    let common = strings(&["/tmp/common/file1.txt", "/tmp/common/file2.txt"]);
    let user = strings(&["/tmp/user/file2.txt", "/tmp/user/file3.txt"]);
    let merged_files = merge_directories(&common, &user);
    let mut merged_filenames: Vec<String> = merged_files
        .iter()
        .map(|p| p.rsplit('/').next().unwrap().to_string())
        .collect();
    merged_filenames.sort();
    assert_eq!(merged_filenames, vec!["file1.txt", "file2.txt", "file3.txt"]);
    let file2_path = merged_files.iter().find(|p| p.ends_with("file2.txt")).unwrap();
    assert!(file2_path.starts_with("/tmp/user"));
}

#[test]
fn test_merge_with_nonexistent_user_directory() {
    let common = strings(&["/tmp/common/file1.txt"]);
    let merged_files = merge_directories(&common, &Vec::new());
    let mut merged_filenames: Vec<String> = merged_files
        .iter()
        .map(|p| p.rsplit('/').next().unwrap().to_string())
        .collect();
    merged_filenames.sort();
    assert_eq!(merged_filenames, vec!["file1.txt"]);
}

#[test]
fn merged_files_keep_the_order_of_their_names() {
    let common = strings(&["/c/b.csv", "/c/a.csv", "/c/.."]);
    let user = strings(&["/u/z.csv", "/u/b.csv"]);
    assert_eq!(merge_directories(&common, &user), strings(&["/u/b.csv", "/c/a.csv", "/u/z.csv"]));
}

#[test]
fn names_are_sanitised() {
    assert_eq!(sanitize_alphanumeric_and_dashes("a-b_c.d/e f!Я9"), "a-b_cdef9");
    assert_eq!(sanitize_alphanumeric_and_dashes_and_dots("a-b_c.d/e f!Я9"), "a-b_c.def9");
    assert_eq!(sanitize_alphanumeric_and_dashes("../../etc/passwd"), "etcpasswd");
    assert_eq!(sanitize_alphanumeric_and_dashes_and_dots("../x"), "..x");
    assert_eq!(sanitize_alphanumeric_and_dashes(""), "");
}

#[test]
fn an_address_is_percent_encoded() {
    assert_eq!(sanitize_email_for_path("alice@example.com"), "alice%40example%2Ecom");
    assert_eq!(sanitize_email_for_path("a/../b"), "a%2F%2E%2E%2Fb");
    assert_eq!(sanitize_email_for_path("я"), "%D1%8F");
    assert_eq!(sanitize_email_for_path("Az09"), "Az09");
}

#[test]
fn directories_below_the_data_directory() {
    assert_eq!(
        user_personal_directory_from_email("/srv/data", "a@b.c"),
        "/srv/data/users/a%40b%2Ec"
    );
    assert_eq!(
        user_deleted_directory_from_email("/srv/data", "a@b.c"),
        "/srv/data/deleted_users/a%40b%2Ec"
    );
    assert_eq!(
        user_catalog_directory_from_email("/srv/data", "a@b.c"),
        "/srv/data/users/a%40b%2Ec/catalog"
    );
    assert_eq!(common_directory("/srv/data"), "/srv/data/common");
}

#[test]
fn blank_texts_of_both_kinds() {
    assert!("".is_empty_or_whitespace());
    assert!(" \t".is_empty_or_whitespace());
    assert!(!" a ".is_empty_or_whitespace());
    assert!(String::from("  ").is_empty_or_whitespace());
    assert!(!String::from("x").is_empty_or_whitespace());
}

#[test]
fn random_identifiers_have_the_length_and_the_alphabet() {
    for len in [0usize, 1, 6, 40] {
        let id = generate_random_id(len);
        assert_eq!(id.chars().count(), len);
        assert!(id.chars().all(|c| c.is_ascii_uppercase() || c.is_ascii_digit()));
    }
}

#[test]
fn a_read_misses_then_hits() {
    let mut cache = DataStorageCache::new(2, 2, 2);
    let first = safe_read("/srv/data", "common/./a.bin", &mut cache).unwrap();
    let path = match first {
        Lookup::Miss(path) => path,
        Lookup::Hit(_) => panic!("nothing was cached"),
    };
    assert_eq!(path, "/srv/data/common/a.bin");
    cache.put_bytes(path, vec![7, 8]);
    let second = safe_read("/srv/data", "common/a.bin", &mut cache).unwrap();
    assert!(matches!(second, Lookup::Hit(bytes) if bytes == vec![7, 8]));
}

#[test]
fn a_read_outside_the_base_is_refused() {
    let mut cache = DataStorageCache::new(2, 2, 2);
    assert!(matches!(
        safe_read("/srv/data", "../secret", &mut cache),
        Err(SafeFsError::PathTraversalDetected)
    ));
    assert!(matches!(
        get_file_bytes("/srv/other/a", "/srv/data", &mut cache),
        Err(SafeFsError::PathTraversalDetected)
    ));
    assert!(matches!(
        get_file_as_string_by_path("/srv/data/../x", "/srv/data", &mut cache),
        Err(SafeFsError::PathTraversalDetected)
    ));
    assert!(matches!(
        get_file_bytes_no_cache("/etc/passwd", "/srv/data"),
        Err(SafeFsError::PathTraversalDetected)
    ));
    assert!(matches!(
        find_cached_rows("/srv/data", "/srv/data/../t.csv", &mut cache),
        Err(AppError::Forbidden)
    ));
}

#[test]
fn reads_by_full_path_use_the_canonical_path() {
    let mut cache = DataStorageCache::new(2, 2, 2);
    cache.put_bytes("/srv/data/a.bin".to_string(), vec![1]);
    cache.put_text("/srv/data/a.txt".to_string(), "text".to_string());
    let bytes = get_file_bytes("/srv/data/x/../a.bin", "/srv/data", &mut cache).unwrap();
    assert!(matches!(bytes, Lookup::Hit(found) if found == vec![1]));
    let text = get_file_as_string_by_path("/srv/data/./a.txt", "/srv/data", &mut cache).unwrap();
    assert!(matches!(text, Lookup::Hit(found) if found == "text"));
    let miss = get_file_as_string_by_path("/srv/data/b.txt", "/srv/data", &mut cache).unwrap();
    assert!(matches!(miss, Lookup::Miss(path) if path == "/srv/data/b.txt"));
    assert_eq!(get_file_bytes_no_cache("/srv/data/./c", "/srv/data").unwrap(), "/srv/data/c");
}

#[test]
fn a_write_followed_by_a_read_does_not_see_the_old_content() {
    let mut cache = DataStorageCache::new(2, 2, 2);
    cache.put_bytes("/srv/data/a.bin".to_string(), vec![1]);
    cache.invalidate("/srv/data/a.bin");
    let read = safe_read("/srv/data", "a.bin", &mut cache).unwrap();
    assert!(matches!(read, Lookup::Miss(path) if path == "/srv/data/a.bin"));
}

#[test]
fn rows_are_parsed_once_and_then_found() {
    let mut cache = DataStorageCache::new(2, 2, 2);
    let miss = find_cached_rows("/srv/data", "/srv/data/t.csv", &mut cache).unwrap();
    let path = match miss {
        Lookup::Miss(path) => path,
        Lookup::Hit(_) => panic!("nothing was cached"),
    };
    let rows = parse_and_cache_rows(path, "a;b\n1;2\n", &mut cache).unwrap();
    assert_eq!(rows, vec![row(&[("a", "1"), ("b", "2")])]);
    let hit = find_cached_rows("/srv/data", "/srv/data/./t.csv", &mut cache).unwrap();
    assert!(matches!(hit, Lookup::Hit(found) if found == rows));
}

#[test]
fn rows_that_do_not_parse_are_not_kept() {
    let mut cache = DataStorageCache::new(2, 2, 2);
    let failed = parse_and_cache_rows("/srv/data/t.csv".to_string(), "", &mut cache);
    assert!(matches!(failed, Err(AppError::InvalidData(_))));
    let failed = parse_and_cache_rows("/srv/data/t.csv".to_string(), "a,b\n1\n", &mut cache);
    assert!(matches!(failed, Err(AppError::ParseError(_))));
    assert!(cache.get_rows("/srv/data/t.csv").is_none());
}

#[test]
fn file_names_each_once() {
    let names = strings(&["b.csv", "a.csv", "b.csv", "c.csv", "a.csv"]);
    assert_eq!(list_unique_file_names(&names), strings(&["b.csv", "a.csv", "c.csv"]));
    assert_eq!(list_unique_file_names(&Vec::new()), Vec::<String>::new());
}

#[test]
fn merged_files_of_one_extension() {
    let common = strings(&["/c/t/a.csv", "/c/t/b.csv", "/c/t/notes.txt", "/c/t/csv", "/c/t/x.CSV"]);
    let user = strings(&["/u/t/b.csv", "/u/t/c.csv.bak", "/u/t/d.tar.csv", "/u/t/.csv"]);
    assert_eq!(
        all_files_with_extension(&common, &user, "csv"),
        strings(&["/c/t/a.csv", "/u/t/b.csv", "/u/t/d.tar.csv"])
    );
    assert_eq!(all_files_with_extension(&common, &user, "js"), Vec::<String>::new());
}

#[test]
fn the_users_file_counts_before_the_shared_one() {
    let user = "/u/t.csv".to_string();
    let common = "/c/t.csv".to_string();
    assert_eq!(
        get_file_path_user_common(user.clone(), true, common.clone(), true),
        Some(user.clone())
    );
    assert_eq!(
        get_file_path_user_common(user.clone(), true, common.clone(), false),
        Some(user.clone())
    );
    assert_eq!(
        get_file_path_user_common(user.clone(), false, common.clone(), true),
        Some(common.clone())
    );
    assert_eq!(get_file_path_user_common(user, false, common, false), None);
}
