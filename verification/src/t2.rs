//! The second table: the parts of a car body by zone.

use crate::constants::{
    T2_ACTION_ASSEMBLE, T2_ACTION_MOUNT, T2_ACTION_PAINT, T2_ACTION_REPAIR, T2_ACTION_REPLACE,
    T2_ACTION_TWIST, T2_BLUEPRINT, T2_BODY, T2_PART_1, T2_PART_2, T2_ZONE,
};
use crate::errors::AppError;
use crate::keyed::{has_key};
use crate::rows::{
    lemma_table_push, row_cells, row_clone, row_get, row_get_index, row_len, table_cells,
};
use crate::tabular::value_of;
use crate::text::{
    concat_str, contains, contains_seq, debug_list, debug_of_list, debug_of_text, debug_text,
    is_blank, lemma_texts_push, str_eq, texts, trimmed,
};
use indexmap::IndexMap;
use std::collections::HashSet;
use vstd::prelude::*;
use vstd::string::StringExecFns;

verus! {

/// A part of a car body as the second table lists it.
#[derive(Debug)]
pub struct T2PartEntry {
    pub name: String,
    /// The group of the part; a part that stands alone has none.
    pub group: Option<String>,
    pub actions: HashSet<String>,
    pub car_blueprint: String,
    pub zone: String,
}

/// The content of a `T2PartEntry`.
pub struct T2PartView {
    pub name: Seq<char>,
    pub group: Option<Seq<char>>,
    pub actions: Set<String>,
    pub car_blueprint: Seq<char>,
    pub zone: Seq<char>,
}

impl View for T2PartEntry {
    type V = T2PartView;

    open spec fn view(&self) -> T2PartView {
        T2PartView {
            name: self.name@,
            group: match self.group {
                Some(group) => Some(group@),
                None => None,
            },
            actions: self.actions@,
            car_blueprint: self.car_blueprint@,
            zone: self.zone@,
        }
    }
}

/// The columns that every row of the second table must have.
pub open spec fn required_fields() -> Seq<Seq<char>> {
    seq![
        T2_ZONE@,
        T2_PART_1@,
        T2_PART_2@,
        T2_BLUEPRINT@,
        T2_ACTION_ASSEMBLE@,
        T2_ACTION_TWIST@,
        T2_ACTION_REPLACE@,
        T2_ACTION_MOUNT@,
        T2_ACTION_REPAIR@,
        T2_ACTION_PAINT@,
    ]
}

/// Those of the first `n` fields that a row lacks, in order.
pub open spec fn missing_fields(cells: Seq<(Seq<char>, Seq<char>)>, fields: Seq<Seq<char>>, n: nat) -> Seq<
    Seq<char>,
>
    decreases n,
{
    if n == 0 || n > fields.len() {
        Seq::empty()
    } else if has_key(cells, fields[n - 1]) {
        missing_fields(cells, fields, (n - 1) as nat)
    } else {
        missing_fields(cells, fields, (n - 1) as nat).push(fields[n - 1])
    }
}

/// What a row of the second table gives: the part, or why the row is
/// refused. A row must have all required columns and a first part name that
/// is not blank. Where the second part name is blank, the first one is the
/// name of the part and the part has no group; else the second one is the
/// name and the first one the group.
pub open spec fn t2_entry(cells: Seq<(Seq<char>, Seq<char>)>) -> Result<T2PartView, Seq<char>> {
    let missing = missing_fields(cells, required_fields(), required_fields().len());
    if missing.len() > 0 {
        Err("Missing required fields: "@ + debug_list(missing))
    } else if trimmed(value_of(cells, T2_PART_1@)).len() == 0 {
        Err("Required field is empty: "@ + debug_text(T2_PART_1@))
    } else {
        let alone = trimmed(value_of(cells, T2_PART_2@)).len() == 0;
        Ok(
            T2PartView {
                name: if alone {
                    value_of(cells, T2_PART_1@)
                } else {
                    value_of(cells, T2_PART_2@)
                },
                group: if alone {
                    None
                } else {
                    Some(value_of(cells, T2_PART_1@))
                },
                actions: Set::empty(),
                car_blueprint: value_of(cells, T2_BLUEPRINT@),
                zone: value_of(cells, T2_ZONE@),
            },
        )
    }
}

/// Whether a result is the part, or the refusal with the reason, that a row
/// gives.
pub open spec fn is_t2_entry(r: Result<T2PartEntry, AppError>, cells: Seq<(Seq<char>, Seq<char>)>) -> bool {
    match t2_entry(cells) {
        Ok(part) => r matches Ok(entry) && entry@ == part,
        Err(reason) => r matches Err(AppError::InvalidData(detail)) && detail@ == reason,
    }
}

/// The value of a column of a row; the empty text where the row has no such
/// column.
fn value_at(row: &IndexMap<String, String>, key: &str) -> (value: String)
    ensures
        value@ == value_of(row_cells(*row), key@),
{
    match row_get(row, key) {
        Some(found) => found.clone(),
        None => String::new(),
    }
}

/// The required columns.
fn required_columns() -> (fields: Vec<String>)
    ensures
        texts(fields@) == required_fields(),
{
    let mut fields: Vec<String> = Vec::new();
    fields.push(String::from_str(T2_ZONE));
    fields.push(String::from_str(T2_PART_1));
    fields.push(String::from_str(T2_PART_2));
    fields.push(String::from_str(T2_BLUEPRINT));
    fields.push(String::from_str(T2_ACTION_ASSEMBLE));
    fields.push(String::from_str(T2_ACTION_TWIST));
    fields.push(String::from_str(T2_ACTION_REPLACE));
    fields.push(String::from_str(T2_ACTION_MOUNT));
    fields.push(String::from_str(T2_ACTION_REPAIR));
    fields.push(String::from_str(T2_ACTION_PAINT));
    assert(texts(fields@) =~= required_fields());
    fields
}

/// Reads a part out of a row of the second table.
pub fn t2_parse_row(row: IndexMap<String, String>) -> (r: Result<T2PartEntry, AppError>)
    ensures
        is_t2_entry(r, row_cells(row)),
{
    let fields = required_columns();
    let ghost cells = row_cells(row);
    let mut missing: Vec<String> = Vec::new();
    let mut i: usize = 0;
    assert(texts(missing@) =~= missing_fields(cells, required_fields(), 0));
    while i < fields.len()
        invariant
            i <= fields.len(),
            cells == row_cells(row),
            texts(fields@) == required_fields(),
            texts(missing@) == missing_fields(cells, required_fields(), i as nat),
        decreases fields.len() - i,
    {
        assert(texts(fields@)[i as int] == fields@[i as int]@);
        if row_get(&row, fields[i].as_str()).is_none() {
            let field = fields[i].clone();
            proof {
                lemma_texts_push(missing@, field);
            }
            missing.push(field);
        }
        i += 1;
    }
    if missing.len() > 0 {
        let shown = debug_of_list(&missing);
        return Err(AppError::InvalidData(concat_str("Missing required fields: ", shown.as_str())));
    }
    let first = value_at(&row, T2_PART_1);
    if is_blank(first.as_str()) {
        let shown = debug_of_text(T2_PART_1);
        return Err(AppError::InvalidData(concat_str("Required field is empty: ", shown.as_str())));
    }
    let second = value_at(&row, T2_PART_2);
    let actions: HashSet<String> = HashSet::new();
    let zone = value_at(&row, T2_ZONE);
    let car_blueprint = value_at(&row, T2_BLUEPRINT);
    if is_blank(second.as_str()) {
        Ok(T2PartEntry { name: first, group: None, actions, car_blueprint, zone })
    } else {
        Ok(T2PartEntry { name: second, group: Some(first), actions, car_blueprint, zone })
    }
}

/// The parts that the first `n` rows give, in order; rows that are refused
/// give none.
pub open spec fn parts_of(table: Seq<Seq<(Seq<char>, Seq<char>)>>, n: nat) -> Seq<T2PartView>
    decreases n,
{
    if n == 0 || n > table.len() {
        Seq::empty()
    } else {
        match t2_entry(table[n - 1]) {
            Ok(part) => parts_of(table, (n - 1) as nat).push(part),
            Err(_) => parts_of(table, (n - 1) as nat),
        }
    }
}

/// The reasons for which rows among the first `n` are refused, in order.
pub open spec fn refusals_of(table: Seq<Seq<(Seq<char>, Seq<char>)>>, n: nat) -> Seq<Seq<char>>
    decreases n,
{
    if n == 0 || n > table.len() {
        Seq::empty()
    } else {
        match t2_entry(table[n - 1]) {
            Ok(_) => refusals_of(table, (n - 1) as nat),
            Err(reason) => refusals_of(table, (n - 1) as nat).push(reason),
        }
    }
}

/// The contents of the parts.
pub open spec fn part_views(parts: Seq<T2PartEntry>) -> Seq<T2PartView> {
    parts.map_values(|part: T2PartEntry| part@)
}

/// Whether the errors are refusals of rows for these reasons, in order.
pub open spec fn are_refusals(errors: Seq<AppError>, reasons: Seq<Seq<char>>) -> bool {
    &&& errors.len() == reasons.len()
    &&& forall|i: int|
        0 <= i < errors.len() ==> ((#[trigger] errors[i]) matches AppError::InvalidData(detail)
            && detail@ == reasons[i])
}

/// Reads the parts out of the rows of the second table, and collects the
/// refusals of the rows that give none.
pub fn parse_all_nofail(rows: Vec<IndexMap<String, String>>) -> (r: (Vec<T2PartEntry>, Vec<AppError>))
    ensures
        part_views(r.0@) == parts_of(table_cells(rows@), rows@.len()),
        are_refusals(r.1@, refusals_of(table_cells(rows@), rows@.len())),
{
    let mut entries: Vec<T2PartEntry> = Vec::new();
    let mut errors: Vec<AppError> = Vec::new();
    let ghost table = table_cells(rows@);
    let mut i: usize = 0;
    assert(part_views(entries@) =~= parts_of(table, 0));
    while i < rows.len()
        invariant
            i <= rows.len(),
            table == table_cells(rows@),
            part_views(entries@) == parts_of(table, i as nat),
            are_refusals(errors@, refusals_of(table, i as nat)),
        decreases rows.len() - i,
    {
        assert(table[i as int] == row_cells(rows@[i as int]));
        match t2_parse_row(row_clone(&rows[i])) {
            Ok(entry) => {
                assert(part_views(entries@.push(entry)) =~= part_views(entries@).push(entry@));
                entries.push(entry);
            },
            Err(error) => {
                errors.push(error);
            },
        }
        i += 1;
    }
    (entries, errors)
}

/// The position of the first row that is refused, or the number of the rows
/// where none is.
pub open spec fn first_refused(table: Seq<Seq<(Seq<char>, Seq<char>)>>) -> int
    decreases table.len(),
{
    if table.len() == 0 || t2_entry(table[0]) is Err {
        0
    } else {
        1 + first_refused(table.drop_first())
    }
}

/// Reads the parts out of the rows of the second table; the first row that
/// gives none is the error.
pub fn parse_all_fail(rows: Vec<IndexMap<String, String>>) -> (r: Result<Vec<T2PartEntry>, AppError>)
    ensures
        ({
            let table = table_cells(rows@);
            match r {
                Ok(entries) => part_views(entries@) == parts_of(table, table.len())
                    && refusals_of(table, table.len()).len() == 0,
                Err(error) => exists|i: int|
                    0 <= i < table.len() && t2_entry(#[trigger] table[i]) is Err && (
                    error matches AppError::InvalidData(detail) && detail@ == t2_entry(
                        table[i],
                    )->Err_0) && refusals_of(table, i as nat).len() == 0,
            }
        }),
{
    let mut entries: Vec<T2PartEntry> = Vec::new();
    let ghost table = table_cells(rows@);
    let mut i: usize = 0;
    assert(part_views(entries@) =~= parts_of(table, 0));
    while i < rows.len()
        invariant
            i <= rows.len(),
            table == table_cells(rows@),
            part_views(entries@) == parts_of(table, i as nat),
            refusals_of(table, i as nat).len() == 0,
        decreases rows.len() - i,
    {
        assert(table[i as int] == row_cells(rows@[i as int]));
        match t2_parse_row(row_clone(&rows[i])) {
            Ok(entry) => {
                assert(part_views(entries@.push(entry)) =~= part_views(entries@).push(entry@));
                entries.push(entry);
            },
            Err(error) => {
                return Err(error);
            },
        }
        i += 1;
    }
    Ok(entries)
}

/// Whether one of the first `n` cells of a row names the body type: its
/// column name holds the words for the body type, and its value is the type.
pub open spec fn names_body_type(cells: Seq<(Seq<char>, Seq<char>)>, car_type: Seq<char>, n: nat) -> bool
    decreases n,
{
    if n == 0 || n > cells.len() {
        false
    } else {
        names_body_type(cells, car_type, (n - 1) as nat) || (contains_seq(
            cells[n - 1].0,
            T2_BODY@,
        ) && cells[n - 1].1 == car_type)
    }
}

/// The rows among the first `n` that name the body type, in order.
pub open spec fn rows_of_body_type(
    table: Seq<Seq<(Seq<char>, Seq<char>)>>,
    car_type: Seq<char>,
    n: nat,
) -> Seq<Seq<(Seq<char>, Seq<char>)>>
    decreases n,
{
    if n == 0 || n > table.len() {
        Seq::empty()
    } else if names_body_type(table[n - 1], car_type, table[n - 1].len()) {
        rows_of_body_type(table, car_type, (n - 1) as nat).push(table[n - 1])
    } else {
        rows_of_body_type(table, car_type, (n - 1) as nat)
    }
}

/// Whether a row names the body type.
pub fn row_names_body_type(row: &IndexMap<String, String>, car_type: &str) -> (r: bool)
    ensures
        r == names_body_type(row_cells(*row), car_type@, row_cells(*row).len()),
{
    let n: usize = row_len(row);
    let mut found = false;
    let mut j: usize = 0;
    while j < n
        invariant
            j <= n,
            n == row_cells(*row).len(),
            found == names_body_type(row_cells(*row), car_type@, j as nat),
        decreases n - j,
    {
        match row_get_index(row, j) {
            Some(cell) => {
                if contains(cell.0.as_str(), T2_BODY) && str_eq(cell.1.as_str(), car_type) {
                    found = true;
                }
            },
            None => {},
        }
        j += 1;
    }
    found
}

/// The rows of the second table that name the body type.
pub fn t2_rows_by_body_type(car_type: &str, rows: &Vec<IndexMap<String, String>>) -> (found: Vec<
    IndexMap<String, String>,
>)
    ensures
        table_cells(found@) == rows_of_body_type(table_cells(rows@), car_type@, rows@.len()),
{
    let mut found: Vec<IndexMap<String, String>> = Vec::new();
    let mut i: usize = 0;
    assert(table_cells(found@) =~= rows_of_body_type(table_cells(rows@), car_type@, 0));
    while i < rows.len()
        invariant
            i <= rows.len(),
            table_cells(found@) == rows_of_body_type(table_cells(rows@), car_type@, i as nat),
        decreases rows.len() - i,
    {
        assert(table_cells(rows@)[i as int] == row_cells(rows@[i as int]));
        if row_names_body_type(&rows[i], car_type) {
            let row = row_clone(&rows[i]);
            proof {
                lemma_table_push(found@, row);
            }
            found.push(row);
        }
        i += 1;
    }
    found
}

} // verus!
