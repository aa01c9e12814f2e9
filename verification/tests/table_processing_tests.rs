use backend_service::cache::DataStorageCache;
use backend_service::tabular::parse_table;
use backend_service::table_processing::{
    find_issues, find_issues_with, fix_issues, fix_table_value,
    has_leading_or_trailing_whitespace, lookup_part_in_rows, lookup_part_in_rows_any_type,
    mend_table, rename_column, row_matches_part, swap_keys, table_file_name,
    validate_table_value,
};
use backend_service::table_validation::{make_basic_validation_rules, FixAction, ValidationRule};
use indexmap::IndexMap;

const DETAIL: &str = "Список деталь укр";
const TYPE: &str = "Список Тип";
const CLASS: &str = "Список Класс";

fn row(cells: &[(&str, &str)]) -> IndexMap<String, String> {
    let mut row = IndexMap::new();
    for (key, value) in cells {
        row.insert(key.to_string(), value.to_string());
    }
    row
}

fn cells(row: &IndexMap<String, String>) -> Vec<(String, String)> {
    row.iter().map(|(k, v)| (k.clone(), v.clone())).collect()
}

fn pairs(items: &[(&str, &str)]) -> Vec<(String, String)> {
    items.iter().map(|(a, b)| (a.to_string(), b.to_string())).collect()
}

fn bound_rule(matcher: &str, key: &str, replacement: &str) -> ValidationRule {
    ValidationRule {
        matcher: matcher.to_string(),
        key: Some(key.to_string()),
        fix_action: FixAction::Replace { replacement: replacement.to_string() },
    }
}

#[test]
fn the_basic_rules() {
    let rules = make_basic_validation_rules();
    assert_eq!(rules.len(), 3);
    assert_eq!(rules[0].matcher, "багажніка");
    assert_eq!(rules[1].matcher, "  ");
    assert_eq!(rules[2].matcher, "5дв.");
    assert!(rules.iter().all(|rule| rule.key.is_none()));
    assert!(matches!(&rules[0].fix_action, FixAction::Replace { replacement } if replacement == "багажника"));
    assert!(matches!(&rules[1].fix_action, FixAction::Replace { replacement } if replacement == " "));
    assert!(matches!(&rules[2].fix_action, FixAction::Replace { replacement } if replacement == "5 дверей"));
}

#[test]
fn a_rule_applies_where_its_matcher_is_found() {
    let rules = make_basic_validation_rules();
    assert!(rules[1].does_apply("a  b", "any"));
    assert!(!rules[1].does_apply("a b", "any"));
    let bound = bound_rule("x", "col", "y");
    assert!(bound.does_apply("axb", "col"));
    assert!(!bound.does_apply("axb", "other"));
    assert!(!bound.does_apply("ab", "col"));
}

#[test]
fn a_rule_reports_and_mends() {
    let rules = make_basic_validation_rules();
    assert_eq!(rules[2].report(), "E: matches '5дв.'");
    assert_eq!(rules[2].apply("седан 5дв. 5дв."), "седан 5 дверей 5 дверей");
    assert_eq!(rules[1].apply("a    b"), "a  b");
    let idle = ValidationRule { matcher: "a".to_string(), key: None, fix_action: FixAction::NoAction };
    assert_eq!(idle.apply("banana"), "banana");
}

#[test]
fn white_space_at_the_ends() {
    assert!(has_leading_or_trailing_whitespace(" a"));
    assert!(has_leading_or_trailing_whitespace("a\t"));
    assert!(!has_leading_or_trailing_whitespace("a b"));
    assert!(!has_leading_or_trailing_whitespace(""));
}

#[test]
fn the_issues_of_a_value() {
    let rules = make_basic_validation_rules();
    assert_eq!(validate_table_value(&rules, "fine", "k"), Vec::<String>::new());
    assert_eq!(
        validate_table_value(&rules, " кришка  багажніка", "k"),
        vec![
            "E: matches 'багажніка'".to_string(),
            "E: matches '  '".to_string(),
            "E: Has leading or trailing whitespaces in  кришка  багажніка".to_string()
        ]
    );
}

#[test]
fn the_first_rule_that_applies_mends_the_value() {
    let rules = make_basic_validation_rules();
    assert_eq!(fix_table_value(&rules, "fine", "k"), None);
    assert_eq!(fix_table_value(&rules, " fine ", "k"), Some("fine".to_string()));
    assert_eq!(
        fix_table_value(&rules, " кришка  багажніка ", "k"),
        Some("кришка  багажника".to_string())
    );
    assert_eq!(fix_table_value(&rules, "a  b", "k"), Some("a b".to_string()));
}

#[test]
fn a_column_is_renamed_in_place() {
    let mut r = row(&[("a", "1"), ("b", "2"), ("c", "3")]);
    rename_column(&mut r, "b", "x");
    assert_eq!(cells(&r), pairs(&[("a", "1"), ("x", "2"), ("c", "3")]));
    rename_column(&mut r, "missing", "y");
    assert_eq!(cells(&r), pairs(&[("a", "1"), ("x", "2"), ("c", "3")]));
    rename_column(&mut r, "a", "c");
    assert_eq!(cells(&r), pairs(&[("a", "1"), ("x", "2"), ("c", "3")]));
    rename_column(&mut r, "c", "last");
    assert_eq!(cells(&r), pairs(&[("a", "1"), ("x", "2"), ("last", "3")]));
}

#[test]
fn columns_are_renamed_in_every_row() {
    let mut rows = vec![row(&[("a", "1"), ("b", "2")]), row(&[("b", "3")]), row(&[("c", "4")])];
    swap_keys(&mut rows, &pairs(&[("b", "B"), ("a", "A")]));
    assert_eq!(cells(&rows[0]), pairs(&[("A", "1"), ("B", "2")]));
    assert_eq!(cells(&rows[1]), pairs(&[("B", "3")]));
    assert_eq!(cells(&rows[2]), pairs(&[("c", "4")]));
}

#[test]
fn the_issues_of_a_table() {
    let rows = vec![row(&[(DETAIL, "двері "), ("n", "a  b")]), row(&[(DETAIL, "капот")])];
    assert_eq!(
        find_issues(&rows, b','),
        vec![
            "E: Has leading or trailing whitespaces in двері ".to_string(),
            "E: matches '  '".to_string()
        ]
    );
}

#[test]
fn a_table_with_another_delimiter_and_without_part_names() {
    let rows = vec![row(&[("a", "1"), ("b", "2")]), row(&[("c", "3")])];
    assert_eq!(
        find_issues(&rows, b';'),
        vec![
            "W: Incorrect delimiter, got: ;".to_string(),
            "E: Column Список деталь укр not found in 3 keys".to_string()
        ]
    );
}

#[test]
fn issues_under_rules_of_ones_own() {
    let rules = vec![bound_rule("1", "a", "one")];
    let rows = vec![row(&[("a", "1"), ("b", "1"), (DETAIL, "x")])];
    assert_eq!(find_issues_with(&rules, &rows, b','), vec!["E: matches '1'".to_string()]);
}

#[test]
fn a_table_is_mended() {
    let mut rows = vec![
        row(&[("Деталь", " двері  передні"), ("ТИП", "седан 5дв."), ("класс", "B")]),
        row(&[("Деталь", "капот"), ("ТИП", "купе"), ("класс", " C ")]),
    ];
    let issues = fix_issues(&mut rows, b';');
    assert_eq!(
        issues,
        vec![
            "W: Incorrect delimiter, got: ;".to_string(),
            "FIXED: двері передні".to_string(),
            "FIXED: седан 5 дверей".to_string(),
            "FIXED: C".to_string(),
            "E: Column Список деталь укр not found in 3 keys".to_string(),
            "E: Column Список Тип not found in 3 keys".to_string(),
            "E: Column Список Класс not found in 3 keys".to_string(),
        ]
    );
    assert_eq!(
        cells(&rows[0]),
        pairs(&[(DETAIL, "двері передні"), (TYPE, "седан 5 дверей"), (CLASS, "B")])
    );
    assert_eq!(cells(&rows[1]), pairs(&[(DETAIL, "капот"), (TYPE, "купе"), (CLASS, "C")]));
}

#[test]
fn a_sound_table_is_left_alone() {
    let original = vec![row(&[(DETAIL, "капот"), (TYPE, "купе"), (CLASS, "C"), ("ціна", "10")])];
    let mut rows = original.clone();
    assert_eq!(fix_issues(&mut rows, b','), Vec::<String>::new());
    assert_eq!(rows, original);
}

#[test]
fn a_part_is_found_by_name_type_and_class() {
    let rows = vec![
        row(&[(DETAIL, "капот"), (TYPE, "купе"), (CLASS, "C"), ("ціна", "1")]),
        row(&[(DETAIL, "капот"), (TYPE, "седан"), (CLASS, "B"), ("ціна", "2")]),
        row(&[(DETAIL, "капот"), (TYPE, "седан"), (CLASS, "B"), ("ціна", "3")]),
        row(&[(DETAIL, "двері"), ("ціна", "4")]),
        row(&[("ціна", "5")]),
    ];
    assert!(row_matches_part(&rows[1], "седан", "B", "капот"));
    assert!(!row_matches_part(&rows[0], "седан", "B", "капот"));
    assert!(row_matches_part(&rows[3], "any", "any", "двері"));
    assert!(!row_matches_part(&rows[4], "any", "any", "двері"));
    assert_eq!(lookup_part_in_rows("седан", "B", "капот", &rows), Some(rows[1].clone()));
    assert_eq!(lookup_part_in_rows("седан", "A", "капот", &rows), None);
    assert_eq!(lookup_part_in_rows("x", "y", "двері", &rows), Some(rows[3].clone()));
}

#[test]
fn all_rows_of_a_part_whatever_the_type() {
    let rows = vec![
        row(&[(DETAIL, "капот"), (TYPE, "купе")]),
        row(&[(DETAIL, "двері")]),
        row(&[(DETAIL, "капот"), (TYPE, "седан")]),
        row(&[("ціна", "5")]),
    ];
    assert_eq!(
        lookup_part_in_rows_any_type("капот", &rows),
        vec![rows[0].clone(), rows[2].clone()]
    );
    assert_eq!(lookup_part_in_rows_any_type("крило", &rows), Vec::<IndexMap<String, String>>::new());
}

#[test]
fn a_table_is_reported_under_its_file_name() {
    assert_eq!(table_file_name("/srv/data/common/tables/t1.csv"), "t1.csv");
    assert_eq!(table_file_name("/"), "Unknown path");
    assert_eq!(table_file_name("a/.."), "Unknown path");
}

#[test]
fn a_mended_table_is_handed_out_for_writing_and_forgotten_by_the_cache() {
    let path = "/d/t.csv";
    let content = "Список деталь укр,Список Тип,Список Класс\n x ,СЕДАН,A\n";
    let mut cache = DataStorageCache::new(1, 1, 1);
    let mut rows = parse_table(content).unwrap();
    cache.put_rows(path.to_string(), rows.clone());
    cache.put_text(path.to_string(), content.to_string());
    cache.put_bytes(path.to_string(), content.as_bytes().to_vec());
    let (notes, written) = mend_table(&mut rows, b',', path, &mut cache);
    assert_eq!(notes, vec!["FIXED: x".to_string()]);
    let bytes = written.unwrap().unwrap();
    assert_eq!(
        String::from_utf8(bytes).unwrap(),
        "Список деталь укр,Список Тип,Список Класс\nx,СЕДАН,A\n"
    );
    assert_eq!(cells(&rows[0]), pairs(&[(DETAIL, "x"), (TYPE, "СЕДАН"), (CLASS, "A")]));
    let sizes = cache.get_caches_size();
    assert_eq!(sizes[0], ("String".to_string(), 0, 0));
    assert_eq!(sizes[1], ("Vec<u8>".to_string(), 0, 0));
    assert_eq!(sizes[2], ("CSV".to_string(), 0, 0));
}

#[test]
fn a_sound_table_is_not_written_but_forgotten_all_the_same() {
    let path = "/d/t.csv";
    let content = "Список деталь укр,Список Тип,Список Класс\nx,СЕДАН,A\n";
    let mut cache = DataStorageCache::new(2, 2, 2);
    let mut rows = parse_table(content).unwrap();
    cache.put_rows(path.to_string(), rows.clone());
    cache.put_rows("/d/other.csv".to_string(), rows.clone());
    let (notes, written) = mend_table(&mut rows, b',', path, &mut cache);
    assert_eq!(notes, Vec::<String>::new());
    assert!(written.is_none());
    assert!(cache.get_rows(path).is_none());
    assert!(cache.get_rows("/d/other.csv").is_some());
}

#[test]
fn a_table_with_another_delimiter_is_written_back_with_commas() {
    let content = "Список деталь укр;Список Тип;Список Класс\nx;СЕДАН;A\n";
    let mut cache = DataStorageCache::new(1, 1, 1);
    let mut rows = parse_table(content).unwrap();
    let (notes, written) = mend_table(&mut rows, b';', "/d/t.csv", &mut cache);
    assert_eq!(notes, vec!["W: Incorrect delimiter, got: ;".to_string()]);
    assert_eq!(
        String::from_utf8(written.unwrap().unwrap()).unwrap(),
        "Список деталь укр,Список Тип,Список Класс\nx,СЕДАН,A\n"
    );
}
