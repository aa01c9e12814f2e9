//! Checks and repairs of the values and the column names of a table, and
//! the search for a part in the rows of a table.

use crate::cache::{DataStorageCache, Representation};
use crate::constants::{CAR_PART_CLASS_FIELD, CAR_PART_DETAIL_UKR_FIELD, CAR_PART_TYPE_FIELD};
use crate::errors::AppError;
use crate::keyed::without_key;
use crate::keyed::{has_key, key_index, lemma_key_absent, lemma_key_index};
use crate::rows::{
    lemma_table_push, row_cells, row_clone, row_get, row_get_index, row_insert, row_len,
    row_shift_insert, row_shift_remove_full, table_cells, with_cell,
};
use crate::table_validation::{
    basic_rules, make_basic_validation_rules, rule_applied, rule_applies, rule_report,
    rule_views, RuleView, ValidationRule,
};
use crate::path_guard::{file_name, file_name_of};
use crate::tabular::{
    csv_text, header_of, header_union, holds_name, serialize_rows, table_records, value_of, COMMA,
};
use crate::text::{
    fields_of, split_fields, strip_char, stripped,
    chars_of, concat_str, decimal, decimal_string, lemma_texts_push, str_eq, texts,
    trim, trim_bounds, trimmed,
};
use indexmap::IndexMap;
use vstd::prelude::*;
use vstd::string::StringExecFns;

verus! {

/// Whether `s` begins or ends with white space.
pub fn has_leading_or_trailing_whitespace(s: &str) -> (r: bool)
    ensures
        r == (trimmed(s@) != s@),
{
    let v = chars_of(s);
    let (a, b) = trim_bounds(&v);
    if a == 0 && b == v.len() {
        assert(v@.subrange(0, v.len() as int) =~= v@);
        false
    } else {
        assert(v@.subrange(a as int, b as int).len() != v@.len());
        true
    }
}

/// The reports of the rules that apply to a value of a column, in the order
/// of the rules.
pub open spec fn reports(rules: Seq<RuleView>, value: Seq<char>, key: Seq<char>) -> Seq<
    Seq<char>,
>
    decreases rules.len(),
{
    if rules.len() == 0 {
        Seq::empty()
    } else {
        let before = reports(rules.drop_last(), value, key);
        if rule_applies(rules.last(), value, key) {
            before.push(rule_report(rules.last()))
        } else {
            before
        }
    }
}

/// The issue of a value with white space at its ends.
pub open spec fn whitespace_issue(value: Seq<char>) -> Seq<char> {
    "E: Has leading or trailing whitespaces in "@ + value
}

/// The issues of a value of a column: the reports of the rules that apply,
/// then the issue of white space at its ends, if it has any.
pub open spec fn value_issues(rules: Seq<RuleView>, value: Seq<char>, key: Seq<char>) -> Seq<
    Seq<char>,
> {
    if trimmed(value) != value {
        reports(rules, value, key).push(whitespace_issue(value))
    } else {
        reports(rules, value, key)
    }
}

/// The issues of a value of a column.
pub fn validate_table_value(validators: &Vec<ValidationRule>, value: &str, key: &str) -> (issues:
    Vec<String>)
    ensures
        texts(issues@) == value_issues(rule_views(validators@), value@, key@),
{
    let mut issues: Vec<String> = Vec::new();
    let mut i: usize = 0;
    let ghost rules = rule_views(validators@);
    assert(texts(issues@) =~= reports(rules.take(0), value@, key@));
    while i < validators.len()
        invariant
            i <= validators.len(),
            rules == rule_views(validators@),
            texts(issues@) == reports(rules.take(i as int), value@, key@),
        decreases validators.len() - i,
    {
        proof {
            assert(rules.take(i + 1).drop_last() =~= rules.take(i as int));
            assert(rules.take(i + 1).last() == validators@[i as int]@);
        }
        if validators[i].does_apply(value, key) {
            let report = validators[i].report();
            proof {
                lemma_texts_push(issues@, report);
            }
            issues.push(report);
        }
        i += 1;
    }
    assert(rules.take(validators.len() as int) =~= rules);
    if has_leading_or_trailing_whitespace(value) {
        let issue = concat_str("E: Has leading or trailing whitespaces in ", value);
        proof {
            lemma_texts_push(issues@, issue);
        }
        issues.push(issue);
    }
    issues
}

/// The position of the first rule that applies to a value of a column, or -1
/// where none applies.
pub open spec fn first_applying(rules: Seq<RuleView>, value: Seq<char>, key: Seq<char>) -> int
    decreases rules.len(),
{
    if rules.len() == 0 {
        -1
    } else if rule_applies(rules[0], value, key) {
        0
    } else {
        let rest = first_applying(rules.drop_first(), value, key);
        if rest < 0 {
            -1
        } else {
            rest + 1
        }
    }
}

/// The mended form of a value of a column, if it needs mending: what the
/// first rule that applies makes of it, trimmed; without such a rule the
/// trimmed value, where trimming changes it.
pub open spec fn fixed_value(rules: Seq<RuleView>, value: Seq<char>, key: Seq<char>) -> Option<
    Seq<char>,
> {
    let i = first_applying(rules, value, key);
    if 0 <= i < rules.len() {
        Some(trimmed(rule_applied(rules[i], value)))
    } else if trimmed(value) != value {
        Some(trimmed(value))
    } else {
        None
    }
}

/// The first position from which a rule applies is `first_applying`.
pub proof fn lemma_first_applying(rules: Seq<RuleView>, value: Seq<char>, key: Seq<char>, n: int)
    requires
        0 <= n <= rules.len(),
        forall|k: int| 0 <= k < n ==> !rule_applies(#[trigger] rules[k], value, key),
        n < rules.len() ==> rule_applies(rules[n], value, key),
    ensures
        first_applying(rules, value, key) == (if n < rules.len() {
            n
        } else {
            -1
        }),
    decreases rules.len(),
{
    if rules.len() == 0 {
    } else if n == 0 {
    } else {
        assert(!rule_applies(rules[0], value, key));
        let rest = rules.drop_first();
        assert forall|k: int| 0 <= k < n - 1 implies !rule_applies(
            #[trigger] rest[k],
            value,
            key,
        ) by {
            assert(rest[k] == rules[k + 1]);
        }
        lemma_first_applying(rest, value, key, n - 1);
    }
}

/// The content of a text that may be missing.
pub open spec fn optional_text(text: Option<String>) -> Option<Seq<char>> {
    match text {
        Some(t) => Some(t@),
        None => None,
    }
}

/// The mended form of a value of a column, if it needs mending.
pub fn fix_table_value(validators: &Vec<ValidationRule>, value: &str, key: &str) -> (fixed: Option<
    String,
>)
    ensures
        optional_text(fixed) == fixed_value(rule_views(validators@), value@, key@),
{
    let mut i: usize = 0;
    let ghost rules = rule_views(validators@);
    while i < validators.len()
        invariant
            i <= validators.len(),
            rules == rule_views(validators@),
            forall|k: int| 0 <= k < i ==> !rule_applies(#[trigger] rules[k], value@, key@),
        decreases validators.len() - i,
    {
        if validators[i].does_apply(value, key) {
            proof {
                lemma_first_applying(rules, value@, key@, i as int);
            }
            let applied = validators[i].apply(value);
            return Some(trim(applied.as_str()));
        }
        i += 1;
    }
    proof {
        lemma_first_applying(rules, value@, key@, validators@.len() as int);
    }
    if has_leading_or_trailing_whitespace(value) {
        return Some(trim(value));
    }
    None
}

/// The cells with the column `old` renamed to `new`: the cell keeps its place
/// and its value. Nothing changes where there is no column `old`, or where
/// there is a column `new` already.
pub open spec fn renamed(cells: Seq<(Seq<char>, Seq<char>)>, old: Seq<char>, new: Seq<char>) -> Seq<
    (Seq<char>, Seq<char>),
> {
    if has_key(cells, old) && !has_key(cells, new) {
        cells.update(key_index(cells, old), (new, cells[key_index(cells, old)].1))
    } else {
        cells
    }
}

/// The cells after the first `n` renamings, one after the other.
pub open spec fn renamed_all(
    cells: Seq<(Seq<char>, Seq<char>)>,
    replacements: Seq<(Seq<char>, Seq<char>)>,
    n: nat,
) -> Seq<(Seq<char>, Seq<char>)>
    decreases n,
{
    if n == 0 || n > replacements.len() {
        cells
    } else {
        renamed(
            renamed_all(cells, replacements, (n - 1) as nat),
            replacements[n - 1].0,
            replacements[n - 1].1,
        )
    }
}

/// The pairs of texts as pairs of sequences.
pub open spec fn pair_texts(pairs: Seq<(String, String)>) -> Seq<(Seq<char>, Seq<char>)> {
    pairs.map_values(|pair: (String, String)| (pair.0@, pair.1@))
}

/// Renames the column `from` of a row to `to`.
pub fn rename_column(row: &mut IndexMap<String, String>, from: &str, to: &str)
    ensures
        row_cells(*final(row)) == renamed(row_cells(*old(row)), from@, to@),
{
    let ghost cells = row_cells(*row);
    if row_get(row, to).is_some() {
        return ;
    }
    match row_shift_remove_full(row, from) {
        None => {},
        Some(removed) => {
            let index = removed.0;
            proof {
                lemma_key_index(cells, from@);
                lemma_key_index(cells, to@);
                let rest = cells.remove(index as int);
                assert forall|k: int| 0 <= k < rest.len() implies (#[trigger] rest[k]).0
                    != to@ by {
                    if k < index {
                        assert(rest[k] == cells[k]);
                    } else {
                        assert(rest[k] == cells[k + 1]);
                    }
                }
                lemma_key_absent(rest, to@);
                assert(rest.insert(index as int, (to@, removed.2@)) =~= cells.update(
                    index as int,
                    (to@, cells[index as int].1),
                ));
            }
            row_shift_insert(row, index, String::from_str(to), removed.2);
        },
    }
}

/// The cells of the rows after the renamings.
pub open spec fn renamed_table(
    table: Seq<Seq<(Seq<char>, Seq<char>)>>,
    replacements: Seq<(Seq<char>, Seq<char>)>,
) -> Seq<Seq<(Seq<char>, Seq<char>)>> {
    table.map_values(
        |cells: Seq<(Seq<char>, Seq<char>)>| renamed_all(cells, replacements, replacements.len()),
    )
}

/// Renames columns in every row: for each pair in turn, the column named by
/// its first text takes the name of its second.
pub fn swap_keys(vec_maps: &mut Vec<IndexMap<String, String>>, replacements: &Vec<(String, String)>)
    ensures
        table_cells(final(vec_maps)@) == renamed_table(
            table_cells(old(vec_maps)@),
            pair_texts(replacements@),
        ),
{
    let ghost before = table_cells(vec_maps@);
    let ghost pairs = pair_texts(replacements@);
    let mut out: Vec<IndexMap<String, String>> = Vec::new();
    let mut i: usize = 0;
    assert(table_cells(out@) =~= renamed_table(before.take(0), pairs));
    while i < vec_maps.len()
        invariant
            i <= vec_maps.len(),
            vec_maps@ == old(vec_maps)@,
            before == table_cells(vec_maps@),
            pairs == pair_texts(replacements@),
            table_cells(out@) == renamed_table(before.take(i as int), pairs),
        decreases vec_maps.len() - i,
    {
        let mut row = row_clone(&vec_maps[i]);
        let mut j: usize = 0;
        while j < replacements.len()
            invariant
                j <= replacements.len(),
                i < vec_maps.len(),
                before == table_cells(vec_maps@),
                pairs == pair_texts(replacements@),
                row_cells(row) == renamed_all(before[i as int], pairs, j as nat),
            decreases replacements.len() - j,
        {
            assert(pairs[j as int] == (replacements@[j as int].0@, replacements@[j as int].1@));
            rename_column(&mut row, replacements[j].0.as_str(), replacements[j].1.as_str());
            j += 1;
        }
        proof {
            lemma_table_push(out@, row);
            assert(before.take(i + 1) =~= before.take(i as int).push(before[i as int]));
            assert(renamed_table(before.take(i + 1), pairs) =~= renamed_table(
                before.take(i as int),
                pairs,
            ).push(renamed_all(before[i as int], pairs, pairs.len())));
        }
        out.push(row);
        i += 1;
    }
    assert(before.take(vec_maps.len() as int) =~= before);
    *vec_maps = out;
}

/// The issues of the first `n` cells of a row, cell by cell.
pub open spec fn cell_issues(rules: Seq<RuleView>, cells: Seq<(Seq<char>, Seq<char>)>, n: nat) -> Seq<
    Seq<char>,
>
    decreases n,
{
    if n == 0 || n > cells.len() {
        Seq::empty()
    } else {
        cell_issues(rules, cells, (n - 1) as nat) + value_issues(
            rules,
            cells[n - 1].1,
            cells[n - 1].0,
        )
    }
}

/// The issues of the cells of the first `n` rows, row by row.
pub open spec fn table_issues(
    rules: Seq<RuleView>,
    table: Seq<Seq<(Seq<char>, Seq<char>)>>,
    n: nat,
) -> Seq<Seq<char>>
    decreases n,
{
    if n == 0 || n > table.len() {
        Seq::empty()
    } else {
        table_issues(rules, table, (n - 1) as nat) + cell_issues(
            rules,
            table[n - 1],
            table[n - 1].len(),
        )
    }
}

/// The warning for a table that is not delimited by commas.
pub open spec fn delimiter_issue(delimiter: u8) -> Seq<Seq<char>> {
    if delimiter != COMMA {
        seq!["W: Incorrect delimiter, got: "@ + seq![delimiter as char]]
    } else {
        Seq::empty()
    }
}

/// The issue of a column that no row has, `count` being the number of the
/// columns that there are.
pub open spec fn missing_column_issue(column: Seq<char>, count: nat) -> Seq<char> {
    "E: Column "@ + column + " not found in "@ + decimal(count) + " keys"@
}

/// The issue of a column, if the table lacks it.
pub open spec fn column_issue(keys: Seq<Seq<char>>, column: Seq<char>) -> Seq<Seq<char>> {
    if keys.contains(column) {
        Seq::empty()
    } else {
        seq![missing_column_issue(column, keys.len())]
    }
}

/// The issues of a table: the warning for its delimiter, the issues of its
/// values, and the issue of a missing column of part names.
pub open spec fn found_issues(
    rules: Seq<RuleView>,
    table: Seq<Seq<(Seq<char>, Seq<char>)>>,
    delimiter: u8,
) -> Seq<Seq<char>> {
    delimiter_issue(delimiter) + table_issues(rules, table, table.len()) + column_issue(
        header_union(table),
        CAR_PART_DETAIL_UKR_FIELD@,
    )
}

/// Appends the texts of `more` to `issues`.
fn extend_issues(issues: &mut Vec<String>, more: Vec<String>)
    ensures
        texts(final(issues)@) == texts(old(issues)@) + texts(more@),
{
    let mut more = more;
    let ghost added = more@;
    issues.append(&mut more);
    assert(texts(issues@) =~= texts(old(issues)@) + texts(added));
}

/// The text of one byte.
fn byte_text(b: u8) -> (text: String)
    ensures
        text@ == seq![b as char],
{
    let mut v: Vec<char> = Vec::new();
    v.push(b as char);
    assert(v@ =~= seq![b as char]);
    crate::text::string_from_chars(&v)
}

/// The warning for a table that is not delimited by commas.
fn delimiter_warning(delimiter: u8) -> (issues: Vec<String>)
    ensures
        texts(issues@) == delimiter_issue(delimiter),
{
    let mut issues: Vec<String> = Vec::new();
    if delimiter != COMMA {
        let shown = byte_text(delimiter);
        let issue = concat_str("W: Incorrect delimiter, got: ", shown.as_str());
        proof {
            lemma_texts_push(issues@, issue);
        }
        issues.push(issue);
        assert(texts(issues@) =~= delimiter_issue(delimiter));
    } else {
        assert(texts(issues@) =~= delimiter_issue(delimiter));
    }
    issues
}

/// The issue of a column, if the columns that there are lack it.
fn column_check(keys: &Vec<String>, column: &str) -> (issues: Vec<String>)
    ensures
        texts(issues@) == column_issue(texts(keys@), column@),
{
    let mut issues: Vec<String> = Vec::new();
    if !holds_name(keys, column) {
        let mut issue = String::from_str("E: Column ");
        issue.append(column);
        issue.append(" not found in ");
        issue.append(decimal_string(keys.len() as u64).as_str());
        issue.append(" keys");
        proof {
            lemma_texts_push(issues@, issue);
        }
        issues.push(issue);
        assert(texts(issues@) =~= column_issue(texts(keys@), column@));
    } else {
        assert(texts(issues@) =~= column_issue(texts(keys@), column@));
    }
    issues
}

/// The issues of a table that was read with the given delimiter, under the
/// given rules.
pub fn find_issues_with(
    validators: &Vec<ValidationRule>,
    rows: &Vec<IndexMap<String, String>>,
    delimiter: u8,
) -> (issues: Vec<String>)
    ensures
        texts(issues@) == found_issues(rule_views(validators@), table_cells(rows@), delimiter),
{
    let ghost rules = rule_views(validators@);
    let ghost table = table_cells(rows@);
    let mut issues = delimiter_warning(delimiter);
    let mut i: usize = 0;
    assert(texts(issues@) =~= delimiter_issue(delimiter) + table_issues(rules, table, 0));
    while i < rows.len()
        invariant
            i <= rows.len(),
            rules == rule_views(validators@),
            table == table_cells(rows@),
            texts(issues@) == delimiter_issue(delimiter) + table_issues(rules, table, i as nat),
        decreases rows.len() - i,
    {
        let row = &rows[i];
        let n: usize = row_len(row);
        let ghost cells = row_cells(*row);
        let ghost before = texts(issues@);
        let mut j: usize = 0;
        assert(table[i as int] == cells);
        assert(before + cell_issues(rules, cells, 0) =~= before);
        while j < n
            invariant
                j <= n,
                n == cells.len(),
                cells == row_cells(*row),
                rules == rule_views(validators@),
                texts(issues@) == before + cell_issues(rules, cells, j as nat),
            decreases n - j,
        {
            match row_get_index(row, j) {
                Some(cell) => {
                    let more = validate_table_value(validators, cell.1.as_str(), cell.0.as_str());
                    extend_issues(&mut issues, more);
                    assert(texts(issues@) =~= before + cell_issues(rules, cells, (j + 1) as nat));
                },
                None => {},
            }
            j += 1;
        }
        assert(texts(issues@) =~= delimiter_issue(delimiter) + table_issues(
            rules,
            table,
            (i + 1) as nat,
        ));
        i += 1;
    }
    let keys = header_of(rows);
    let more = column_check(&keys, CAR_PART_DETAIL_UKR_FIELD);
    extend_issues(&mut issues, more);
    issues
}

/// The issues of a table that was read with the given delimiter, under the
/// rules that every table is held to.
pub fn find_issues(rows: &Vec<IndexMap<String, String>>, delimiter: u8) -> (issues: Vec<String>)
    ensures
        texts(issues@) == found_issues(basic_rules(), table_cells(rows@), delimiter),
{
    let validators = make_basic_validation_rules();
    find_issues_with(&validators, rows, delimiter)
}


/// The cells of a row after the first `n` of them were mended: a value that
/// needs mending is replaced by its mended form, every cell keeps its place
/// and its name.
pub open spec fn fixed_cells(rules: Seq<RuleView>, cells: Seq<(Seq<char>, Seq<char>)>, n: nat) -> Seq<
    (Seq<char>, Seq<char>),
>
    decreases n,
{
    if n == 0 || n > cells.len() {
        cells
    } else {
        let before = fixed_cells(rules, cells, (n - 1) as nat);
        match fixed_value(rules, cells[n - 1].1, cells[n - 1].0) {
            Some(value) => before.update(n - 1, (cells[n - 1].0, value)),
            None => before,
        }
    }
}

/// The notes on the values that were mended among the first `n` cells of a
/// row: for each of them the word `FIXED` and the mended value.
pub open spec fn fix_notes(rules: Seq<RuleView>, cells: Seq<(Seq<char>, Seq<char>)>, n: nat) -> Seq<
    Seq<char>,
>
    decreases n,
{
    if n == 0 || n > cells.len() {
        Seq::empty()
    } else {
        let before = fix_notes(rules, cells, (n - 1) as nat);
        match fixed_value(rules, cells[n - 1].1, cells[n - 1].0) {
            Some(value) => before.push("FIXED: "@ + value),
            None => before,
        }
    }
}

/// The notes on the values that were mended in the first `n` rows.
pub open spec fn table_notes(
    rules: Seq<RuleView>,
    table: Seq<Seq<(Seq<char>, Seq<char>)>>,
    n: nat,
) -> Seq<Seq<char>>
    decreases n,
{
    if n == 0 || n > table.len() {
        Seq::empty()
    } else {
        table_notes(rules, table, (n - 1) as nat) + fix_notes(
            rules,
            table[n - 1],
            table[n - 1].len(),
        )
    }
}

/// The rows with every value mended.
pub open spec fn fixed_table(rules: Seq<RuleView>, table: Seq<Seq<(Seq<char>, Seq<char>)>>) -> Seq<
    Seq<(Seq<char>, Seq<char>)>,
> {
    table.map_values(
        |cells: Seq<(Seq<char>, Seq<char>)>| fixed_cells(rules, cells, cells.len()),
    )
}

/// The renaming that gives a table a column it lacks, where the table has
/// the column under its old name.
pub open spec fn column_repair(keys: Seq<Seq<char>>, column: Seq<char>, legacy: Seq<char>) -> Seq<
    (Seq<char>, Seq<char>),
> {
    if !keys.contains(column) && keys.contains(legacy) {
        seq![(legacy, column)]
    } else {
        Seq::empty()
    }
}

/// The renamings that give a table the columns of part name, type and class
/// where it has them under their old names.
pub open spec fn column_repairs(keys: Seq<Seq<char>>) -> Seq<(Seq<char>, Seq<char>)> {
    column_repair(keys, CAR_PART_DETAIL_UKR_FIELD@, "Деталь"@) + column_repair(
        keys,
        CAR_PART_TYPE_FIELD@,
        "ТИП"@,
    ) + column_repair(keys, CAR_PART_CLASS_FIELD@, "класс"@)
}

/// The issues of the columns of part name, type and class that a table lacks.
pub open spec fn column_issues(keys: Seq<Seq<char>>) -> Seq<Seq<char>> {
    column_issue(keys, CAR_PART_DETAIL_UKR_FIELD@) + column_issue(keys, CAR_PART_TYPE_FIELD@)
        + column_issue(keys, CAR_PART_CLASS_FIELD@)
}

/// What mending a table reports: the warning for its delimiter, a note for
/// each value that was mended, and the issue of each column that is missing.
pub open spec fn fix_report(
    rules: Seq<RuleView>,
    table: Seq<Seq<(Seq<char>, Seq<char>)>>,
    delimiter: u8,
) -> Seq<Seq<char>> {
    delimiter_issue(delimiter) + table_notes(rules, table, table.len()) + column_issues(
        header_union(table),
    )
}

/// The mended table: every value mended, and the columns of part name, type
/// and class renamed from their old names where the table lacks them.
pub open spec fn repaired_table(rules: Seq<RuleView>, table: Seq<Seq<(Seq<char>, Seq<char>)>>) -> Seq<
    Seq<(Seq<char>, Seq<char>)>,
> {
    renamed_table(fixed_table(rules, table), column_repairs(header_union(table)))
}

/// Mending values keeps the number of cells and their names, and leaves the
/// cells that were not reached as they were.
pub proof fn lemma_fixed_cells(rules: Seq<RuleView>, cells: Seq<(Seq<char>, Seq<char>)>, n: nat)
    requires
        n <= cells.len(),
    ensures
        fixed_cells(rules, cells, n).len() == cells.len(),
        forall|k: int|
            0 <= k < cells.len() ==> (#[trigger] fixed_cells(rules, cells, n)[k]).0 == cells[k].0,
        forall|k: int| n <= k < cells.len() ==> #[trigger] fixed_cells(rules, cells, n)[k] == cells[k],
    decreases n,
{
    if n > 0 {
        lemma_fixed_cells(rules, cells, (n - 1) as nat);
    }
}

/// Mends the values of a row and notes each value that was mended.
fn fix_row(validators: &Vec<ValidationRule>, row: &mut IndexMap<String, String>, issues: &mut Vec<
    String,
>)
    ensures
        row_cells(*final(row)) == fixed_cells(
            rule_views(validators@),
            row_cells(*old(row)),
            row_cells(*old(row)).len(),
        ),
        texts(final(issues)@) == texts(old(issues)@) + fix_notes(
            rule_views(validators@),
            row_cells(*old(row)),
            row_cells(*old(row)).len(),
        ),
{
    let ghost rules = rule_views(validators@);
    let ghost cells = row_cells(*row);
    let ghost before = texts(issues@);
    let n: usize = row_len(row);
    let mut j: usize = 0;
    assert(before + fix_notes(rules, cells, 0) =~= before);
    while j < n
        invariant
            j <= n,
            n == cells.len(),
            rules == rule_views(validators@),
            row_cells(*row) == fixed_cells(rules, cells, j as nat),
            texts(issues@) == before + fix_notes(rules, cells, j as nat),
        decreases n - j,
    {
        proof {
            lemma_fixed_cells(rules, cells, j as nat);
        }
        let (key, value) = match row_get_index(row, j) {
            Some(cell) => (cell.0.clone(), cell.1.clone()),
            None => (String::new(), String::new()),
        };
        match fix_table_value(validators, value.as_str(), key.as_str()) {
            Some(updated) => {
                let mut note = String::from_str("FIXED: ");
                note.append(updated.as_str());
                proof {
                    lemma_texts_push(issues@, note);
                    assert(with_cell(row_cells(*row), key@, updated@) == row_cells(*row).update(
                        j as int,
                        (key@, updated@),
                    ));
                }
                issues.push(note);
                row_insert(row, key, updated);
                assert(texts(issues@) =~= before + fix_notes(rules, cells, (j + 1) as nat));
            },
            None => {
                assert(texts(issues@) =~= before + fix_notes(rules, cells, (j + 1) as nat));
            },
        }
        j += 1;
    }
}

/// The renaming that gives a table a column it lacks.
fn repair_for(keys: &Vec<String>, column: &str, legacy: &str) -> (repair: Vec<(String, String)>)
    ensures
        pair_texts(repair@) == column_repair(texts(keys@), column@, legacy@),
{
    let mut repair: Vec<(String, String)> = Vec::new();
    if !holds_name(keys, column) && holds_name(keys, legacy) {
        repair.push((String::from_str(legacy), String::from_str(column)));
        assert(pair_texts(repair@) =~= column_repair(texts(keys@), column@, legacy@));
    } else {
        assert(pair_texts(repair@) =~= column_repair(texts(keys@), column@, legacy@));
    }
    repair
}

/// Appends the pairs of `more` to `pairs`.
fn extend_pairs(pairs: &mut Vec<(String, String)>, more: Vec<(String, String)>)
    ensures
        pair_texts(final(pairs)@) == pair_texts(old(pairs)@) + pair_texts(more@),
{
    let mut more = more;
    let ghost added = more@;
    pairs.append(&mut more);
    assert(pair_texts(pairs@) =~= pair_texts(old(pairs)@) + pair_texts(added));
}

/// Mends a table that was read with the given delimiter, under the given
/// rules, and reports what was mended and what is missing. The table is to
/// be written back where anything is reported.
pub fn fix_issues_with(
    validators: &Vec<ValidationRule>,
    rows: &mut Vec<IndexMap<String, String>>,
    delimiter: u8,
) -> (issues: Vec<String>)
    ensures
        texts(issues@) == fix_report(
            rule_views(validators@),
            table_cells(old(rows)@),
            delimiter,
        ),
        table_cells(final(rows)@) == repaired_table(
            rule_views(validators@),
            table_cells(old(rows)@),
        ),
{
    let ghost rules = rule_views(validators@);
    let ghost table = table_cells(rows@);
    let keys = header_of(rows);
    let mut issues = delimiter_warning(delimiter);
    let mut fixed: Vec<IndexMap<String, String>> = Vec::new();
    let mut i: usize = 0;
    assert(texts(issues@) =~= delimiter_issue(delimiter) + table_notes(rules, table, 0));
    assert(table_cells(fixed@) =~= fixed_table(rules, table.take(0)));
    while i < rows.len()
        invariant
            i <= rows.len(),
            rows@ == old(rows)@,
            rules == rule_views(validators@),
            table == table_cells(rows@),
            texts(issues@) == delimiter_issue(delimiter) + table_notes(rules, table, i as nat),
            table_cells(fixed@) == fixed_table(rules, table.take(i as int)),
        decreases rows.len() - i,
    {
        let mut row = row_clone(&rows[i]);
        assert(table[i as int] == row_cells(row));
        fix_row(validators, &mut row, &mut issues);
        proof {
            lemma_table_push(fixed@, row);
            assert(table.take(i + 1) =~= table.take(i as int).push(table[i as int]));
            assert(fixed_table(rules, table.take(i + 1)) =~= fixed_table(
                rules,
                table.take(i as int),
            ).push(fixed_cells(rules, table[i as int], table[i as int].len())));
            assert(texts(issues@) =~= delimiter_issue(delimiter) + table_notes(
                rules,
                table,
                (i + 1) as nat,
            ));
        }
        fixed.push(row);
        i += 1;
    }
    assert(table.take(rows.len() as int) =~= table);
    let ghost notes = texts(issues@);
    extend_issues(&mut issues, column_check(&keys, CAR_PART_DETAIL_UKR_FIELD));
    extend_issues(&mut issues, column_check(&keys, CAR_PART_TYPE_FIELD));
    extend_issues(&mut issues, column_check(&keys, CAR_PART_CLASS_FIELD));
    assert(texts(issues@) =~= notes + column_issues(texts(keys@)));
    let mut replacements = repair_for(&keys, CAR_PART_DETAIL_UKR_FIELD, "Деталь");
    extend_pairs(&mut replacements, repair_for(&keys, CAR_PART_TYPE_FIELD, "ТИП"));
    extend_pairs(&mut replacements, repair_for(&keys, CAR_PART_CLASS_FIELD, "класс"));
    if replacements.len() > 0 {
        swap_keys(&mut fixed, &replacements);
    } else {
        assert(table_cells(fixed@) =~= renamed_table(
            table_cells(fixed@),
            pair_texts(replacements@),
        ));
    }
    *rows = fixed;
    issues
}

/// Mends a table under the rules that every table is held to.
pub fn fix_issues(rows: &mut Vec<IndexMap<String, String>>, delimiter: u8) -> (issues: Vec<String>)
    ensures
        texts(issues@) == fix_report(basic_rules(), table_cells(old(rows)@), delimiter),
        table_cells(final(rows)@) == repaired_table(basic_rules(), table_cells(old(rows)@)),
{
    let validators = make_basic_validation_rules();
    fix_issues_with(&validators, rows, delimiter)
}


/// Whether a result is what writing the rows as a table gives: the bytes, or
/// the failure of the writer.
pub open spec fn is_written(
    written: Result<Vec<u8>, AppError>,
    table: Seq<Seq<(Seq<char>, Seq<char>)>>,
) -> bool {
    match written {
        Ok(bytes) => csv_text(table_records(table)) == Some(bytes@),
        Err(error) => csv_text(table_records(table)) is None && error is ParseError,
    }
}

/// Mends the table of the file at the canonical path `path`, which was read
/// with the given delimiter. The notes say what was mended and what is
/// missing. Where there are notes, the mended table is to be written back:
/// the bytes to write come with the notes. Where there are none, nothing is
/// to be written. Either way the cache forgets the path in every
/// representation.
pub fn mend_table(
    rows: &mut Vec<IndexMap<String, String>>,
    delimiter: u8,
    path: &str,
    cache: &mut DataStorageCache,
) -> (r: (Vec<String>, Option<Result<Vec<u8>, AppError>>))
    requires
        old(cache).wf(),
    ensures
        final(cache).wf(),
        texts(r.0@) == fix_report(basic_rules(), table_cells(old(rows)@), delimiter),
        table_cells(final(rows)@) == repaired_table(basic_rules(), table_cells(old(rows)@)),
        r.1 is Some <==> r.0@.len() > 0,
        r.1 matches Some(written) ==> is_written(written, table_cells(final(rows)@)),
        forall|kind: Representation|
            final(cache).entries(kind) == without_key(old(cache).entries(kind), path@),
        forall|kind: Representation| final(cache).capacity(kind) == old(cache).capacity(kind),
{
    let notes = fix_issues(rows, delimiter);
    let written = if notes.len() > 0 {
        Some(serialize_rows(rows))
    } else {
        None
    };
    cache.invalidate(path);
    (notes, written)
}

/// Whether a row lists the part for the type and the class of a car: its
/// column of part names holds the part, and its columns of type and class,
/// where it has them, hold the type and the class.
pub open spec fn part_matches(
    cells: Seq<(Seq<char>, Seq<char>)>,
    car_type: Seq<char>,
    car_class: Seq<char>,
    part: Seq<char>,
) -> bool {
    &&& has_key(cells, CAR_PART_DETAIL_UKR_FIELD@)
    &&& value_of(cells, CAR_PART_DETAIL_UKR_FIELD@) == part
    &&& has_key(cells, CAR_PART_TYPE_FIELD@) ==> value_of(cells, CAR_PART_TYPE_FIELD@) == car_type
    &&& has_key(cells, CAR_PART_CLASS_FIELD@) ==> value_of(cells, CAR_PART_CLASS_FIELD@)
        == car_class
}

/// Whether a row lists the part, whatever the type and the class.
pub open spec fn names_part(cells: Seq<(Seq<char>, Seq<char>)>, part: Seq<char>) -> bool {
    has_key(cells, CAR_PART_DETAIL_UKR_FIELD@) && value_of(cells, CAR_PART_DETAIL_UKR_FIELD@)
        == part
}

/// Whether the column `key` of a row holds `wanted`; `absent` where the row
/// has no such column.
fn column_holds(row: &IndexMap<String, String>, key: &str, wanted: &str, absent: bool) -> (r: bool)
    ensures
        r == (if has_key(row_cells(*row), key@) {
            value_of(row_cells(*row), key@) == wanted@
        } else {
            absent
        }),
{
    match row_get(row, key) {
        Some(value) => str_eq(value.as_str(), wanted),
        None => absent,
    }
}

/// Whether a row lists the part for the type and the class of a car.
pub fn row_matches_part(row: &IndexMap<String, String>, car_type: &str, car_class: &str, part: &str) -> (r:
    bool)
    ensures
        r == part_matches(row_cells(*row), car_type@, car_class@, part@),
{
    column_holds(row, CAR_PART_DETAIL_UKR_FIELD, part, false) && column_holds(
        row,
        CAR_PART_TYPE_FIELD,
        car_type,
        true,
    ) && column_holds(row, CAR_PART_CLASS_FIELD, car_class, true)
}

/// The first row of a table that lists the part for the type and the class
/// of a car.
pub fn lookup_part_in_rows(
    car_type: &str,
    car_class: &str,
    part: &str,
    rows: &Vec<IndexMap<String, String>>,
) -> (found: Option<IndexMap<String, String>>)
    ensures
        match found {
            Some(row) => exists|i: int|
                0 <= i < rows@.len() && row_cells(row) == #[trigger] table_cells(rows@)[i]
                    && part_matches(table_cells(rows@)[i], car_type@, car_class@, part@)
                    && forall|k: int|
                    0 <= k < i ==> !part_matches(
                        #[trigger] table_cells(rows@)[k],
                        car_type@,
                        car_class@,
                        part@,
                    ),
            None => forall|k: int|
                0 <= k < rows@.len() ==> !part_matches(
                    #[trigger] table_cells(rows@)[k],
                    car_type@,
                    car_class@,
                    part@,
                ),
        },
{
    let mut i: usize = 0;
    while i < rows.len()
        invariant
            i <= rows.len(),
            forall|k: int|
                0 <= k < i ==> !part_matches(
                    #[trigger] table_cells(rows@)[k],
                    car_type@,
                    car_class@,
                    part@,
                ),
        decreases rows.len() - i,
    {
        assert(table_cells(rows@)[i as int] == row_cells(rows@[i as int]));
        if row_matches_part(&rows[i], car_type, car_class, part) {
            let row = row_clone(&rows[i]);
            assert(row_cells(row) == table_cells(rows@)[i as int]);
            return Some(row);
        }
        i += 1;
    }
    None
}

/// The rows among the first `n` that list the part, in order.
pub open spec fn rows_naming(table: Seq<Seq<(Seq<char>, Seq<char>)>>, part: Seq<char>, n: nat) -> Seq<
    Seq<(Seq<char>, Seq<char>)>,
>
    decreases n,
{
    if n == 0 || n > table.len() {
        Seq::empty()
    } else if names_part(table[n - 1], part) {
        rows_naming(table, part, (n - 1) as nat).push(table[n - 1])
    } else {
        rows_naming(table, part, (n - 1) as nat)
    }
}

/// The rows of a table that list the part, whatever the type and the class.
pub fn lookup_part_in_rows_any_type(part: &str, rows: &Vec<IndexMap<String, String>>) -> (found: Vec<
    IndexMap<String, String>,
>)
    ensures
        table_cells(found@) == rows_naming(table_cells(rows@), part@, rows@.len()),
{
    let mut found: Vec<IndexMap<String, String>> = Vec::new();
    let mut i: usize = 0;
    assert(table_cells(found@) =~= rows_naming(table_cells(rows@), part@, 0));
    while i < rows.len()
        invariant
            i <= rows.len(),
            table_cells(found@) == rows_naming(table_cells(rows@), part@, i as nat),
        decreases rows.len() - i,
    {
        assert(table_cells(rows@)[i as int] == row_cells(rows@[i as int]));
        if column_holds(&rows[i], CAR_PART_DETAIL_UKR_FIELD, part, false) {
            let row = row_clone(&rows[i]);
            proof {
                lemma_table_push(found@, row);
            }
            found.push(row);
        }
        i += 1;
    }
    found
}

/// The name under which the table at a path is reported: the last component
/// of the path, or the words `Unknown path` where it has none.
pub fn table_file_name(file: &str) -> (name: String)
    ensures
        name@ == (match file_name_of(file@) {
            Some(last) => last,
            None => "Unknown path"@,
        }),
{
    match file_name(file) {
        Some(last) => last,
        None => String::from_str("Unknown path"),
    }
}


/// The names of the columns that the first line of a table written with
/// commas gives: the parts between the commas, each without white space and
/// without double quotes at its ends.
pub open spec fn header_cells(line: Seq<char>) -> Seq<Seq<char>> {
    fields_of(line, ',').map_values(|field: Seq<char>| stripped(trimmed(field), '"'))
}

/// The names of the columns of a table, from its first line.
pub fn get_csv_header(first_line: &str) -> (headers: Vec<String>)
    ensures
        texts(headers@) == header_cells(first_line@),
{
    let fields = split_fields(&chars_of(first_line), ',');
    let mut headers: Vec<String> = Vec::new();
    let mut i: usize = 0;
    while i < fields.len()
        invariant
            i <= fields.len(),
            texts(fields@) == fields_of(first_line@, ','),
            headers@.len() == i,
            forall|k: int|
                0 <= k < i ==> (#[trigger] headers@[k])@ == stripped(trimmed(fields@[k]@), '"'),
        decreases fields.len() - i,
    {
        let bare = trim(fields[i].as_str());
        headers.push(strip_char(bare.as_str(), '"'));
        i += 1;
    }
    proof {
        assert forall|k: int| 0 <= k < fields@.len() implies texts(headers@)[k] == header_cells(
            first_line@,
        )[k] by {
            assert(texts(fields@)[k] == fields@[k]@);
        }
        assert(texts(headers@) =~= header_cells(first_line@));
    }
    headers
}

/// The values of a column in the first `n` rows, each once, in the order in
/// which they first appear.
pub open spec fn unique_values(table: Seq<Seq<(Seq<char>, Seq<char>)>>, key: Seq<char>, n: nat) -> Seq<
    Seq<char>,
>
    decreases n,
{
    if n == 0 || n > table.len() {
        Seq::empty()
    } else {
        let before = unique_values(table, key, (n - 1) as nat);
        if has_key(table[n - 1], key) && !before.contains(value_of(table[n - 1], key)) {
            before.push(value_of(table[n - 1], key))
        } else {
            before
        }
    }
}

/// The values that a column takes in a table, each once.
pub fn get_unique_values_iter(table: &Vec<IndexMap<String, String>>, key: &str) -> (values: Vec<
    String,
>)
    ensures
        texts(values@) == unique_values(table_cells(table@), key@, table@.len()),
{
    let mut values: Vec<String> = Vec::new();
    let mut i: usize = 0;
    assert(texts(values@) =~= unique_values(table_cells(table@), key@, 0));
    while i < table.len()
        invariant
            i <= table.len(),
            texts(values@) == unique_values(table_cells(table@), key@, i as nat),
        decreases table.len() - i,
    {
        assert(table_cells(table@)[i as int] == row_cells(table@[i as int]));
        match row_get(&table[i], key) {
            Some(value) => {
                if !holds_name(&values, value.as_str()) {
                    let kept = value.clone();
                    proof {
                        lemma_texts_push(values@, kept);
                    }
                    values.push(kept);
                }
            },
            None => {},
        }
        i += 1;
    }
    values
}


} // verus!
