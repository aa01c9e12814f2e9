//! The table loader: delimiter detection, rows keyed by header names, and the
//! way back from rows to records.
//!
//! Splitting a file into records and joining records into a file is the work
//! of the `csv` crate; what the library adds around it is stated here.

use crate::errors::AppError;
use crate::keyed::{has_key, key_index};
use crate::rows::{
    lemma_table_push, row_cells, row_get, row_get_index, row_insert, row_len, row_new, table_cells,
    with_cell,
};
use crate::text::{
    chars_of, concat_str, count_char, count_of, decimal, decimal_string, lemma_texts_push, lines_of, split_lines, str_eq,
    texts,
};
use indexmap::IndexMap;
use vstd::prelude::*;
use vstd::string::StringExecFns;

verus! {

#[verifier::external_type_specification]
#[verifier::external_body]
pub struct ExCsvError(csv::Error);

/// The byte of the comma.
pub const COMMA: u8 = 44;

/// The byte of the semicolon.
pub const SEMICOLON: u8 = 59;

/// The byte of the tab.
pub const TAB: u8 = 9;

/// The byte of the pipe.
pub const PIPE: u8 = 124;

/// How often `c` stands in the first two lines of `content`.
pub open spec fn sample_count(content: Seq<char>, c: char) -> nat {
    let lines = lines_of(content);
    (if lines.len() > 0 {
        count_of(lines[0], c)
    } else {
        0
    }) + (if lines.len() > 1 {
        count_of(lines[1], c)
    } else {
        0
    })
}

/// The delimiter of a table: of comma, semicolon, tab and pipe the one that
/// stands more often in the first two lines than each of the others. Where no
/// candidate stands alone at the top, because several tie or none occurs, the
/// delimiter is the comma.
pub open spec fn chosen_separator(content: Seq<char>) -> u8 {
    let comma = sample_count(content, ',');
    let semicolon = sample_count(content, ';');
    let tab = sample_count(content, '\t');
    let pipe = sample_count(content, '|');
    if semicolon > comma && semicolon > tab && semicolon > pipe {
        SEMICOLON
    } else if tab > comma && tab > semicolon && tab > pipe {
        TAB
    } else if pipe > comma && pipe > semicolon && pipe > tab {
        PIPE
    } else {
        COMMA
    }
}

/// How often `c` stands in the first two of `lines`.
fn count_in_sample(lines: &Vec<String>, c: char) -> (n: u128)
    ensures
        n == (if lines@.len() > 0 {
            count_of(lines@[0]@, c)
        } else {
            0
        }) + (if lines@.len() > 1 {
            count_of(lines@[1]@, c)
        } else {
            0
        }),
{
    let first: usize = if lines.len() > 0 {
        count_char(lines[0].as_str(), c)
    } else {
        0
    };
    let second: usize = if lines.len() > 1 {
        count_char(lines[1].as_str(), c)
    } else {
        0
    };
    (first as u128) + (second as u128)
}

/// How often `c` stands in the first two lines of `content`.
pub fn count_in_first_lines(content: &str, c: char) -> (n: u128)
    ensures
        n == sample_count(content@, c),
{
    let lines = split_lines(&chars_of(content));
    proof {
        let all = lines_of(content@);
        assert(texts(lines@) == all);
        if all.len() > 0 {
            assert(texts(lines@)[0] == lines@[0]@);
        }
        if all.len() > 1 {
            assert(texts(lines@)[1] == lines@[1]@);
        }
    }
    count_in_sample(&lines, c)
}

/// Detects the delimiter of a table from its first two lines.
pub fn detect_separator_from_string(content: &str) -> (separator: u8)
    ensures
        separator == chosen_separator(content@),
{
    let lines = split_lines(&chars_of(content));
    proof {
        let all = lines_of(content@);
        assert(texts(lines@) == all);
        if all.len() > 0 {
            assert(texts(lines@)[0] == lines@[0]@);
        }
        if all.len() > 1 {
            assert(texts(lines@)[1] == lines@[1]@);
        }
    }
    let comma = count_in_sample(&lines, ',');
    let semicolon = count_in_sample(&lines, ';');
    let tab = count_in_sample(&lines, '\t');
    let pipe = count_in_sample(&lines, '|');
    if semicolon > comma && semicolon > tab && semicolon > pipe {
        SEMICOLON
    } else if tab > comma && tab > semicolon && tab > pipe {
        TAB
    } else if pipe > comma && pipe > semicolon && pipe > tab {
        PIPE
    } else {
        COMMA
    }
}

/// The character of a candidate delimiter.
pub open spec fn candidate_char(separator: u8) -> char {
    if separator == SEMICOLON {
        ';'
    } else if separator == TAB {
        '\t'
    } else if separator == PIPE {
        '|'
    } else {
        ','
    }
}

/// Whether a byte is one of the four candidate delimiters.
pub open spec fn is_candidate(separator: u8) -> bool {
    separator == COMMA || separator == SEMICOLON || separator == TAB || separator == PIPE
}

/// Whether a candidate stands alone at the top: it occurs more often in the
/// first two lines than each of the other candidates.
pub open spec fn stands_alone(content: Seq<char>, separator: u8) -> bool {
    is_candidate(separator) && forall|other: u8|
        is_candidate(other) && other != separator ==> sample_count(
            content,
            candidate_char(separator),
        ) > sample_count(content, #[trigger] candidate_char(other))
}

/// A table whose first two lines hold more semicolons than commas, tabs and
/// pipes is read with the semicolon as delimiter.
pub proof fn law_semicolon_table(content: Seq<char>)
    requires
        sample_count(content, ';') > sample_count(content, ','),
        sample_count(content, ';') > sample_count(content, '\t'),
        sample_count(content, ';') > sample_count(content, '|'),
    ensures
        chosen_separator(content) == SEMICOLON,
{
}

/// The delimiter is the candidate that stands alone at the top, and the comma
/// where none does: on a tie for the highest count, and where no candidate
/// occurs at all.
pub proof fn law_highest_count_or_comma(content: Seq<char>, separator: u8)
    ensures
        stands_alone(content, separator) ==> chosen_separator(content) == separator,
        (forall|any: u8| !stands_alone(content, any)) ==> chosen_separator(content) == COMMA,
        is_candidate(chosen_separator(content)),
        chosen_separator(content) != COMMA ==> stands_alone(content, chosen_separator(content)),
{
    let comma = sample_count(content, ',');
    let semicolon = sample_count(content, ';');
    let tab = sample_count(content, '\t');
    let pipe = sample_count(content, '|');
    assert(candidate_char(COMMA) == ',');
    assert(candidate_char(SEMICOLON) == ';');
    assert(candidate_char(TAB) == '\t');
    assert(candidate_char(PIPE) == '|');
    if stands_alone(content, separator) {
        if separator == COMMA {
            assert(comma > sample_count(content, candidate_char(SEMICOLON)));
            assert(comma > sample_count(content, candidate_char(TAB)));
            assert(comma > sample_count(content, candidate_char(PIPE)));
        } else if separator == SEMICOLON {
            assert(semicolon > sample_count(content, candidate_char(COMMA)));
            assert(semicolon > sample_count(content, candidate_char(TAB)));
            assert(semicolon > sample_count(content, candidate_char(PIPE)));
        } else if separator == TAB {
            assert(tab > sample_count(content, candidate_char(COMMA)));
            assert(tab > sample_count(content, candidate_char(SEMICOLON)));
            assert(tab > sample_count(content, candidate_char(PIPE)));
        } else {
            assert(pipe > sample_count(content, candidate_char(COMMA)));
            assert(pipe > sample_count(content, candidate_char(SEMICOLON)));
            assert(pipe > sample_count(content, candidate_char(TAB)));
        }
    }
    let chosen = chosen_separator(content);
    if chosen != COMMA {
        assert(stands_alone(content, chosen));
    }
}

/// The texts of the fields of each record.
pub open spec fn table_texts(records: Seq<Vec<String>>) -> Seq<Seq<Seq<char>>> {
    records.map_values(|record: Vec<String>| texts(record@))
}

/// The records that the `csv` reader finds in `content` when fields are split
/// at `delimiter`, the header line being the first record; `None` where the
/// reader reports an error.
pub uninterp spec fn csv_records(content: Seq<char>, delimiter: u8) -> Option<Seq<Seq<Seq<char>>>>;

/// The bytes that the `csv` writer makes of the records, with the comma as
/// delimiter; `None` where the writer reports an error.
pub uninterp spec fn csv_text(records: Seq<Seq<Seq<char>>>) -> Option<Seq<u8>>;

/// `csv::Reader::records` on a reader over `content` that splits fields at
/// `delimiter` and takes no line for a header: all records in order, or the
/// first error.
#[verifier::external_body]
fn read_records(content: &str, delimiter: u8) -> (r: Result<Vec<Vec<String>>, csv::Error>)
    ensures
        match r {
            Ok(records) => csv_records(content@, delimiter) == Some(table_texts(records@)),
            Err(_) => csv_records(content@, delimiter) is None,
        },
{
    let mut reader = csv::ReaderBuilder::new().delimiter(delimiter).has_headers(false).from_reader(
        content.as_bytes(),
    );
    let mut records = Vec::new();
    for record in reader.records() {
        records.push(record?.iter().map(String::from).collect());
    }
    Ok(records)
}

/// `csv::Writer::write_record` for each record in turn, into memory: the bytes
/// written, or the first error.
#[verifier::external_body]
fn write_records(records: &Vec<Vec<String>>) -> (r: Result<Vec<u8>, csv::Error>)
    ensures
        match r {
            Ok(bytes) => csv_text(table_texts(records@)) == Some(bytes@),
            Err(_) => csv_text(table_texts(records@)) is None,
        },
{
    let mut writer = csv::Writer::from_writer(Vec::new());
    for record in records {
        writer.write_record(record)?;
    }
    writer.into_inner().map_err(|e| csv::Error::from(e.into_error()))
}

/// The text that `csv::Error` shows for an error.
#[verifier::external_body]
fn csv_error_text(error: &csv::Error) -> (text: String) {
    error.to_string()
}

/// Whether the header at position `i` repeats an earlier one.
pub open spec fn is_repeat(headers: Seq<Seq<char>>, i: int) -> bool {
    exists|j: int| 0 <= j < i && #[trigger] headers[j] == headers[i]
}

/// The name of the column at position `i`: its header, or `column_` and the
/// position where there is no header for it or the header repeats an earlier
/// one.
pub open spec fn column_name(headers: Seq<Seq<char>>, i: int) -> Seq<char> {
    if 0 <= i < headers.len() && !is_repeat(headers, i) {
        headers[i]
    } else {
        "column_"@ + decimal(i as nat)
    }
}

/// The cells of the row that a record gives under the headers: each field in
/// turn is set under the name of its column.
pub open spec fn row_of(headers: Seq<Seq<char>>, record: Seq<Seq<char>>) -> Seq<
    (Seq<char>, Seq<char>),
>
    decreases record.len(),
{
    if record.len() == 0 {
        Seq::empty()
    } else {
        with_cell(
            row_of(headers, record.drop_last()),
            column_name(headers, record.len() - 1),
            record.last(),
        )
    }
}

/// The cells of the rows that the records give under the headers.
pub open spec fn rows_of(headers: Seq<Seq<char>>, records: Seq<Seq<Seq<char>>>) -> Seq<
    Seq<(Seq<char>, Seq<char>)>,
> {
    records.map_values(|record: Seq<Seq<char>>| row_of(headers, record))
}

/// The cells of the rows of a table whose first record is the header.
pub open spec fn table_of(all: Seq<Seq<Seq<char>>>) -> Seq<Seq<(Seq<char>, Seq<char>)>> {
    if all.len() == 0 {
        Seq::empty()
    } else {
        rows_of(all[0], all.drop_first())
    }
}

/// The name `column_` and the position.
pub fn column_label(i: usize) -> (name: String)
    ensures
        name@ == "column_"@ + decimal(i as nat),
{
    let digits = decimal_string(i as u64);
    concat_str("column_", digits.as_str())
}

/// The names of the columns that have a header.
pub fn column_names(headers: &Vec<String>) -> (names: Vec<String>)
    ensures
        names@.len() == headers@.len(),
        forall|i: int|
            0 <= i < names@.len() ==> (#[trigger] names@[i])@ == column_name(texts(headers@), i),
{
    let mut names: Vec<String> = Vec::new();
    let mut i: usize = 0;
    while i < headers.len()
        invariant
            i <= headers.len(),
            names@.len() == i,
            forall|k: int|
                0 <= k < i ==> (#[trigger] names@[k])@ == column_name(texts(headers@), k),
        decreases headers.len() - i,
    {
        let mut repeat = false;
        let mut j: usize = 0;
        while j < i && !repeat
            invariant
                j <= i < headers.len(),
                repeat ==> is_repeat(texts(headers@), i as int),
                !repeat ==> forall|k: int|
                    0 <= k < j ==> (#[trigger] texts(headers@)[k]) != texts(headers@)[i as int],
            decreases i - j + (if repeat { 0int } else { 1int }),
        {
            if str_eq(headers[j].as_str(), headers[i].as_str()) {
                assert(texts(headers@)[j as int] == texts(headers@)[i as int]);
                repeat = true;
            } else {
                j += 1;
            }
        }
        let name = if repeat {
            column_label(i)
        } else {
            headers[i].clone()
        };
        assert(name@ == column_name(texts(headers@), i as int));
        names.push(name);
        i += 1;
    }
    names
}

/// The row that a record gives: its fields under the names of their columns,
/// `names` holding the names of the columns that have a header.
fn build_row(Ghost(headers): Ghost<Seq<Seq<char>>>, names: &Vec<String>, record: &Vec<String>) -> (row:
    IndexMap<String, String>)
    requires
        names@.len() == headers.len(),
        forall|i: int| 0 <= i < names@.len() ==> (#[trigger] names@[i])@ == column_name(headers, i),
    ensures
        row_cells(row) == row_of(headers, texts(record@)),
{
    let mut row = row_new();
    let mut i: usize = 0;
    assert(texts(record@).take(0) =~= Seq::<Seq<char>>::empty());
    while i < record.len()
        invariant
            i <= record.len(),
            names@.len() == headers.len(),
            forall|k: int|
                0 <= k < names@.len() ==> (#[trigger] names@[k])@ == column_name(headers, k),
            row_cells(row) == row_of(headers, texts(record@).take(i as int)),
        decreases record.len() - i,
    {
        let name = if i < names.len() {
            names[i].clone()
        } else {
            column_label(i)
        };
        proof {
            let fields = texts(record@);
            assert(fields.take(i + 1).drop_last() =~= fields.take(i as int));
            assert(fields.take(i + 1).last() == record@[i as int]@);
        }
        row_insert(&mut row, name, record[i].clone());
        i += 1;
    }
    assert(texts(record@).take(record.len() as int) =~= texts(record@));
    row
}

/// The rows of `records[start..]` under the headers.
fn rows_from(headers: &Vec<String>, records: &Vec<Vec<String>>, start: usize) -> (rows: Vec<
    IndexMap<String, String>,
>)
    requires
        start <= records.len(),
    ensures
        table_cells(rows@) == rows_of(
            texts(headers@),
            table_texts(records@).subrange(start as int, records@.len() as int),
        ),
{
    let names = column_names(headers);
    let mut rows: Vec<IndexMap<String, String>> = Vec::new();
    let mut i: usize = start;
    let ghost all = table_texts(records@);
    assert(table_cells(rows@) =~= rows_of(texts(headers@), all.subrange(start as int, i as int)));
    while i < records.len()
        invariant
            start <= i <= records.len(),
            all == table_texts(records@),
            names@.len() == headers@.len(),
            forall|k: int|
                0 <= k < names@.len() ==> (#[trigger] names@[k])@ == column_name(
                    texts(headers@),
                    k,
                ),
            table_cells(rows@) == rows_of(texts(headers@), all.subrange(start as int, i as int)),
        decreases records.len() - i,
    {
        let row = build_row(Ghost(texts(headers@)), &names, &records[i]);
        proof {
            lemma_table_push(rows@, row);
            assert(all.subrange(start as int, i + 1) =~= all.subrange(start as int, i as int).push(
                all[i as int],
            ));
            assert(rows_of(texts(headers@), all.subrange(start as int, i + 1)) =~= rows_of(
                texts(headers@),
                all.subrange(start as int, i as int),
            ).push(row_of(texts(headers@), all[i as int])));
        }
        rows.push(row);
        i += 1;
    }
    rows
}

/// The rows that the records of a table give under its headers: one row for
/// each record, its fields in the order of the columns, each under the name
/// of its column.
pub fn rows_from_records(headers: &Vec<String>, records: &Vec<Vec<String>>) -> (rows: Vec<
    IndexMap<String, String>,
>)
    ensures
        table_cells(rows@) == rows_of(texts(headers@), table_texts(records@)),
{
    let rows = rows_from(headers, records, 0);
    assert(table_texts(records@).subrange(0, records@.len() as int) =~= table_texts(records@));
    rows
}

/// Parses the content of a table file: the delimiter is detected from the
/// first two lines, the first record is the header, and every later record
/// becomes a row. An empty file is refused, and so is a file that the `csv`
/// reader rejects.
pub fn parse_table(content: &str) -> (r: Result<Vec<IndexMap<String, String>>, AppError>)
    ensures
        content@.len() == 0 ==> (r matches Err(AppError::InvalidData(detail)) && detail@
            == "Empty file"@),
        content@.len() > 0 && csv_records(content@, chosen_separator(content@)) is None ==> (
        r matches Err(AppError::ParseError(_))),
        content@.len() > 0 && csv_records(content@, chosen_separator(content@)) is Some ==> (
        r matches Ok(rows) && table_cells(rows@) == table_of(
            csv_records(content@, chosen_separator(content@))->0,
        )),
{
    if content.is_empty() {
        return Err(AppError::InvalidData(String::from_str("Empty file")));
    }
    let delimiter = detect_separator_from_string(content);
    match read_records(content, delimiter) {
        Err(error) => Err(AppError::ParseError(csv_error_text(&error))),
        Ok(all) => {
            if all.len() == 0 {
                let rows: Vec<IndexMap<String, String>> = Vec::new();
                assert(table_cells(rows@) =~= table_of(table_texts(all@)));
                Ok(rows)
            } else {
                let rows = rows_from(&all[0], &all, 1);
                assert(table_texts(all@).subrange(1, all@.len() as int) =~= table_texts(
                    all@,
                ).drop_first());
                Ok(rows)
            }
        },
    }
}


/// The names after those of the cells were added: each name of a cell that is
/// not yet among the names goes last.
pub open spec fn add_keys(names: Seq<Seq<char>>, cells: Seq<(Seq<char>, Seq<char>)>) -> Seq<
    Seq<char>,
>
    decreases cells.len(),
{
    if cells.len() == 0 {
        names
    } else {
        let before = add_keys(names, cells.drop_last());
        if before.contains(cells.last().0) {
            before
        } else {
            before.push(cells.last().0)
        }
    }
}

/// The header of a table: every column name of every row, once, in the order
/// in which the names first appear.
pub open spec fn header_union(rows: Seq<Seq<(Seq<char>, Seq<char>)>>) -> Seq<Seq<char>>
    decreases rows.len(),
{
    if rows.len() == 0 {
        Seq::empty()
    } else {
        add_keys(header_union(rows.drop_last()), rows.last())
    }
}

/// The value of the column `key` in a row; the empty text where the row has
/// no such column.
pub open spec fn value_of(cells: Seq<(Seq<char>, Seq<char>)>, key: Seq<char>) -> Seq<char> {
    if has_key(cells, key) {
        cells[key_index(cells, key)].1
    } else {
        Seq::empty()
    }
}

/// The record of a row under a header: the row's value for each name.
pub open spec fn record_of(cells: Seq<(Seq<char>, Seq<char>)>, header: Seq<Seq<char>>) -> Seq<
    Seq<char>,
> {
    Seq::new(header.len(), |i: int| value_of(cells, header[i]))
}

/// The records of a table: the header, then one record for each row.
pub open spec fn table_records(rows: Seq<Seq<(Seq<char>, Seq<char>)>>) -> Seq<Seq<Seq<char>>> {
    seq![header_union(rows)] + Seq::new(
        rows.len(),
        |i: int| record_of(rows[i], header_union(rows)),
    )
}

/// Whether `names` holds `name`.
pub fn holds_name(names: &Vec<String>, name: &str) -> (r: bool)
    ensures
        r == texts(names@).contains(name@),
{
    let mut i: usize = 0;
    while i < names.len()
        invariant
            i <= names.len(),
            forall|k: int| 0 <= k < i ==> (#[trigger] texts(names@)[k]) != name@,
        decreases names.len() - i,
    {
        if str_eq(names[i].as_str(), name) {
            assert(texts(names@)[i as int] == name@);
            return true;
        }
        i += 1;
    }
    false
}

/// The header of a table: the column names of its rows, each once, in the
/// order in which they first appear.
pub fn header_of(rows: &Vec<IndexMap<String, String>>) -> (header: Vec<String>)
    ensures
        texts(header@) == header_union(table_cells(rows@)),
{
    let mut header: Vec<String> = Vec::new();
    let mut i: usize = 0;
    let ghost table = table_cells(rows@);
    assert(texts(header@) =~= header_union(table.take(0)));
    while i < rows.len()
        invariant
            i <= rows.len(),
            table == table_cells(rows@),
            texts(header@) == header_union(table.take(i as int)),
        decreases rows.len() - i,
    {
        let row = &rows[i];
        let n: usize = row_len(row);
        let ghost cells = row_cells(*row);
        let ghost before = header_union(table.take(i as int));
        let mut j: usize = 0;
        assert(cells.take(0) =~= Seq::<(Seq<char>, Seq<char>)>::empty());
        while j < n
            invariant
                j <= n,
                n == cells.len(),
                cells == row_cells(*row),
                texts(header@) == add_keys(before, cells.take(j as int)),
            decreases n - j,
        {
            proof {
                assert(cells.take(j + 1).drop_last() =~= cells.take(j as int));
                assert(cells.take(j + 1).last() == cells[j as int]);
            }
            match row_get_index(row, j) {
                Some(cell) => {
                    if !holds_name(&header, cell.0.as_str()) {
                        let name = cell.0.clone();
                        proof {
                            lemma_texts_push(header@, name);
                        }
                        header.push(name);
                    }
                },
                None => {},
            }
            j += 1;
        }
        proof {
            assert(cells.take(n as int) =~= cells);
            assert(table.take(i + 1).drop_last() =~= table.take(i as int));
            assert(table.take(i + 1).last() == cells);
        }
        i += 1;
    }
    assert(table.take(rows.len() as int) =~= table);
    header
}

/// The record of a row under a header: for each name the row's value, or the
/// empty text where the row has no such column.
pub fn record_for(row: &IndexMap<String, String>, header: &Vec<String>) -> (record: Vec<String>)
    ensures
        texts(record@) == record_of(row_cells(*row), texts(header@)),
{
    let mut record: Vec<String> = Vec::new();
    let mut i: usize = 0;
    while i < header.len()
        invariant
            i <= header.len(),
            record@.len() == i,
            forall|k: int|
                0 <= k < i ==> (#[trigger] record@[k])@ == value_of(
                    row_cells(*row),
                    texts(header@)[k],
                ),
        decreases header.len() - i,
    {
        let value = match row_get(row, header[i].as_str()) {
            Some(found) => found.clone(),
            None => String::new(),
        };
        assert(texts(header@)[i as int] == header@[i as int]@);
        record.push(value);
        i += 1;
    }
    assert(texts(record@) =~= record_of(row_cells(*row), texts(header@)));
    record
}

/// The records of a table: the header, then one record for each row.
pub fn records_of_rows(rows: &Vec<IndexMap<String, String>>) -> (records: Vec<Vec<String>>)
    ensures
        table_texts(records@) == table_records(table_cells(rows@)),
{
    let header = header_of(rows);
    let ghost table = table_cells(rows@);
    let mut records: Vec<Vec<String>> = Vec::new();
    let mut i: usize = 0;
    while i < rows.len()
        invariant
            i <= rows.len(),
            table == table_cells(rows@),
            texts(header@) == header_union(table),
            records@.len() == i,
            forall|k: int|
                0 <= k < i ==> texts((#[trigger] records@[k])@) == record_of(
                    table[k],
                    header_union(table),
                ),
        decreases rows.len() - i,
    {
        let record = record_for(&rows[i], &header);
        assert(table[i as int] == row_cells(rows@[i as int]));
        records.push(record);
        i += 1;
    }
    let mut all: Vec<Vec<String>> = Vec::new();
    all.push(header);
    let ghost data = records@;
    all.append(&mut records);
    assert(all@ =~= seq![header] + data);
    assert(table_texts(all@) =~= table_records(table));
    all
}

/// Writes rows as a table with the comma as delimiter: a header line that
/// names every column of every row, then one line for each row, an empty
/// field standing for a column that a row lacks.
pub fn serialize_rows(rows: &Vec<IndexMap<String, String>>) -> (r: Result<Vec<u8>, AppError>)
    ensures
        match r {
            Ok(bytes) => csv_text(table_records(table_cells(rows@))) == Some(bytes@),
            Err(error) => csv_text(table_records(table_cells(rows@))) is None
                && error is ParseError,
        },
{
    let records = records_of_rows(rows);
    match write_records(&records) {
        Ok(bytes) => Ok(bytes),
        Err(error) => Err(AppError::ParseError(csv_error_text(&error))),
    }
}


} // verus!
