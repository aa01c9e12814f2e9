use backend_service::transactionalfs::{GitTransactionalFs, TransactionalFs};
use backend_service::tree::{
    entry_name, insert_entry, is_shown_name, list_entries, list_files_raw, name_before, FsEntry,
    RawEntry, RawKind,
};

fn raw_file(name: &str) -> RawEntry {
    RawEntry { name: name.to_string(), kind: RawKind::File, children: Vec::new() }
}

fn raw_dir(name: &str, children: Vec<RawEntry>) -> RawEntry {
    RawEntry { name: name.to_string(), kind: RawKind::Directory, children }
}

fn raw_link(name: &str) -> RawEntry {
    RawEntry { name: name.to_string(), kind: RawKind::Other, children: Vec::new() }
}

fn file(name: &str) -> FsEntry {
    FsEntry::File { name: name.to_string() }
}

fn dir(name: &str, children: Vec<FsEntry>) -> FsEntry {
    FsEntry::Directory { name: name.to_string(), children }
}

fn listing() -> Vec<RawEntry> {
    vec![
        raw_file("zeta.txt"),
        raw_dir(".git", vec![raw_file("HEAD"), raw_dir("objects", vec![])]),
        raw_dir("tables", vec![raw_file("t2.csv"), raw_link("latest"), raw_file("T1.csv")]),
        raw_link("shortcut"),
        raw_file("alpha.txt"),
        raw_dir("empty", vec![]),
        raw_file(".gitignore"),
    ]
}

fn expected() -> Vec<FsEntry> {
    vec![
        file(".gitignore"),
        file("alpha.txt"),
        dir("empty", vec![]),
        dir("tables", vec![file("T1.csv"), file("t2.csv")]),
        file("zeta.txt"),
    ]
}

#[test]
fn names_are_ordered_as_strings_are() {
    let names = ["", "a", "A", "ab", "b", "Z", "é", "я", "a b", "a-b", "10", "9", "z\u{10ffff}", "😀"];
    for a in names {
        for b in names {
            assert_eq!(name_before(a, b), a < b, "for {:?} and {:?}", a, b);
        }
    }
}

#[test]
fn the_tree_is_sorted_and_hides_the_repository() {
    assert_eq!(list_entries(&listing()), expected());
}

#[test]
fn a_file_named_like_the_repository_is_hidden_too() {
    assert_eq!(list_entries(&vec![raw_file(".git"), raw_file("a")]), vec![file("a")]);
}

#[test]
fn an_empty_directory_lists_nothing() {
    assert_eq!(list_entries(&Vec::new()), Vec::<FsEntry>::new());
}

#[test]
fn a_written_file_is_in_the_tree() {
    let mut raws = listing();
    raws.push(raw_dir("notes", vec![raw_file("p.txt")]));
    let tree = list_entries(&raws);
    assert!(tree.contains(&dir("notes", vec![file("p.txt")])));
}

#[test]
fn entries_go_behind_those_of_the_same_name() {
    let mut entries = vec![file("a"), dir("b", vec![]), file("c")];
    insert_entry(&mut entries, file("b"));
    assert_eq!(entries, vec![file("a"), dir("b", vec![]), file("b"), file("c")]);
    insert_entry(&mut entries, file("0"));
    insert_entry(&mut entries, file("d"));
    assert_eq!(entry_name(&entries[0]), "0");
    assert_eq!(entry_name(&entries[5]), "d");
}

#[test]
fn the_root_is_shown_by_its_last_component() {
    let tree = list_files_raw("/srv/data/users/alice", &listing());
    assert_eq!(tree, dir("alice", expected()));
}

#[test]
fn a_root_without_a_name_is_shown_as_a_slash() {
    assert_eq!(list_files_raw("/", &vec![raw_file("a")]), dir("/", vec![file("a")]));
    assert_eq!(list_files_raw("/srv/..", &Vec::new()), dir("/", vec![]));
}

#[test]
fn the_store_lists_its_root() {
    let store = GitTransactionalFs::new("/srv/common".to_string(), "bob@example.com".to_string());
    assert_eq!(store.list_files(&listing()), dir("common", expected()));
}

#[test]
fn a_copy_is_equal_to_its_original() {
    let tree = dir("root", expected());
    assert_eq!(tree.clone(), tree);
    assert_eq!(tree.copy(), tree);
}

#[test]
fn only_the_repository_is_hidden_by_name() {
    assert!(!is_shown_name(".git"));
    assert!(is_shown_name(".gitignore"));
    assert!(is_shown_name("git"));
    assert!(is_shown_name(""));
}
