//! CSV files: one record per data row, each cell typed by its column.

use vstd::prelude::*;

use super::Ingestor;
use super::Payload;
use super::PayloadModel;
use super::Record;
use super::RecordModel;
use super::outcome_view;
use super::last_key_positions;
use super::is_last_key;
use crate::error::IngestError;
use crate::text::concat3;
use crate::text::concat4;
use crate::text::concat5;
use crate::text::decimal;
use crate::text::decimal_string;
use crate::text::float_literal;
use crate::text::is_float_literal;
use crate::text::owned;
use crate::text::parse_i64;
use crate::text::parse_i64_spec;

verus! {

/// The CSV ingestor.
pub struct CsvIngestor;

/// The type inferred for a CSV column, from all of its values before any is
/// converted, so that a column gets one consistent type.
#[derive(Debug, Clone, Copy, PartialEq, Eq, Structural)]
pub enum ColumnType {
    /// Every non-empty cell parses as an `i64`.
    Integer,
    /// Every non-empty cell parses as an `f64` (but not all as `i64`).
    Float,
    /// Some non-empty cell is no number, or every cell is empty.
    Text,
}

/// A typed CSV cell. A float is kept as the literal that was read; it is
/// turned into a number where the payload becomes JSON.
#[derive(Debug, Clone, PartialEq, Eq)]
pub enum CellValue {
    Null,
    Integer(i64),
    Float(String),
    Text(String),
}

/// The mathematical value of a `CellValue`.
pub enum CellModel {
    Null,
    Integer(i64),
    Float(Seq<char>),
    Text(Seq<char>),
}

impl View for CellValue {
    type V = CellModel;

    open spec fn view(&self) -> CellModel {
        match self {
            CellValue::Null => CellModel::Null,
            CellValue::Integer(n) => CellModel::Integer(*n),
            CellValue::Float(s) => CellModel::Float(s@),
            CellValue::Text(s) => CellModel::Text(s@),
        }
    }
}

/// Every value of the column is empty.
pub open spec fn all_empty(vals: Seq<Seq<char>>) -> bool {
    forall|i: int| 0 <= i < vals.len() ==> (#[trigger] vals[i]).len() == 0
}

/// Every non-empty value of the column parses as an `i64`.
pub open spec fn non_empty_are_integers(vals: Seq<Seq<char>>) -> bool {
    forall|i: int|
        0 <= i < vals.len() && (#[trigger] vals[i]).len() > 0 ==> parse_i64_spec(vals[i]) is Some
}

/// Every non-empty value of the column parses as an `f64`.
pub open spec fn non_empty_are_floats(vals: Seq<Seq<char>>) -> bool {
    forall|i: int| 0 <= i < vals.len() && (#[trigger] vals[i]).len() > 0 ==> float_literal(vals[i])
}

/// The column type of a column with these values.
pub open spec fn infer_spec(vals: Seq<Seq<char>>) -> ColumnType {
    if all_empty(vals) {
        ColumnType::Text
    } else if non_empty_are_integers(vals) {
        ColumnType::Integer
    } else if non_empty_are_floats(vals) {
        ColumnType::Float
    } else {
        ColumnType::Text
    }
}

/// The cell a value becomes in a column of the given type: an empty value
/// is null whatever the type; a value that does not parse as the column's
/// type stays text.
pub open spec fn coerce_spec(value: Seq<char>, col_type: ColumnType) -> CellModel {
    if value.len() == 0 {
        CellModel::Null
    } else {
        match col_type {
            ColumnType::Integer => match parse_i64_spec(value) {
                Some(n) => CellModel::Integer(n),
                None => CellModel::Text(value),
            },
            ColumnType::Float => if float_literal(value) {
                CellModel::Float(value)
            } else {
                CellModel::Text(value)
            },
            ColumnType::Text => CellModel::Text(value),
        }
    }
}

pub open spec fn strs_view(v: Seq<&str>) -> Seq<Seq<char>> {
    v.map_values(|s: &str| s@)
}

/// Infers one column type by scanning all values of the column.
pub fn infer_column_type(values: &[&str]) -> (t: ColumnType)
    ensures
        t == infer_spec(strs_view(values@)),
{
    let ghost vals = strs_view(values@);
    let n = values.len();
    let mut any_non_empty = false;
    let mut all_int = true;
    let mut all_float = true;
    for i in 0..n
        invariant
            n == values@.len(),
            vals == strs_view(values@),
            any_non_empty == exists|j: int| 0 <= j < i && (#[trigger] vals[j]).len() > 0,
            all_int == forall|j: int|
                0 <= j < i && (#[trigger] vals[j]).len() > 0 ==> parse_i64_spec(vals[j]) is Some,
            all_float == forall|j: int|
                0 <= j < i && (#[trigger] vals[j]).len() > 0 ==> float_literal(vals[j]),
    {
        let v = values[i];
        assert(vals[i as int] == v@);
        if !v.is_empty() {
            any_non_empty = true;
            if all_int && parse_i64(v).is_none() {
                all_int = false;
            }
            if all_float && !is_float_literal(v) {
                all_float = false;
            }
        }
    }
    if !any_non_empty {
        assert(forall|i: int| 0 <= i < vals.len() ==> (#[trigger] vals[i]).len() == 0);
        return ColumnType::Text;
    }
    if all_int {
        return ColumnType::Integer;
    }
    if all_float {
        return ColumnType::Float;
    }
    ColumnType::Text
}

/// Converts one cell according to its column's type.
pub fn coerce_cell(value: &str, col_type: &ColumnType) -> (c: CellValue)
    ensures
        c@ == coerce_spec(value@, *col_type),
{
    if value.is_empty() {
        return CellValue::Null;
    }
    match col_type {
        ColumnType::Integer => match parse_i64(value) {
            Some(n) => CellValue::Integer(n),
            None => CellValue::Text(owned(value)),
        },
        ColumnType::Float => if is_float_literal(value) {
            CellValue::Float(owned(value))
        } else {
            CellValue::Text(owned(value))
        },
        ColumnType::Text => CellValue::Text(owned(value)),
    }
}

/// Every data cell of one column.
pub open spec fn column(rows: Seq<Seq<Seq<char>>>, j: int) -> Seq<Seq<char>> {
    Seq::new(rows.len(), |r: int| rows[r][j])
}

pub open spec fn min_len(a: nat, b: nat) -> nat {
    if a <= b {
        a
    } else {
        b
    }
}

/// The record for data row `i`: each header paired with the row's cell,
/// typed by the column. As in a JSON object filled header by header, a
/// header that occurs again replaces the earlier value, so no key repeats.
pub open spec fn csv_row_record(
    headers: Seq<Seq<char>>,
    rows: Seq<Seq<Seq<char>>>,
    i: int,
) -> RecordModel {
    let n = min_len(headers.len(), rows[i].len()) as int;
    RecordModel {
        asset_type: "csv_row"@,
        payload: PayloadModel::CsvRow(
            last_key_positions(headers, n, n).map_values(
                |j: int| (headers[j], coerce_spec(rows[i][j], infer_spec(column(rows, j)))),
            ),
        ),
        row_index: Some(i as i32),
    }
}

/// A CSV file as the `csv` crate reads it: the header row and, for each
/// following record, its fields or the reader's error.
pub struct CsvTable {
    pub headers: Result<Vec<String>, String>,
    pub rows: Vec<Result<Vec<String>, String>>,
}

pub struct CsvTableModel {
    pub headers: Result<Seq<Seq<char>>, Seq<char>>,
    pub rows: Seq<Result<Seq<Seq<char>>, Seq<char>>>,
}

pub open spec fn strings_view(v: Seq<String>) -> Seq<Seq<char>> {
    v.map_values(|s: String| s@)
}

pub open spec fn row_view(r: Result<Vec<String>, String>) -> Result<Seq<Seq<char>>, Seq<char>> {
    match r {
        Ok(v) => Ok(strings_view(v@)),
        Err(e) => Err(e@),
    }
}

impl View for CsvTable {
    type V = CsvTableModel;

    open spec fn view(&self) -> CsvTableModel {
        CsvTableModel {
            headers: row_view(self.headers),
            rows: self.rows@.map_values(|r: Result<Vec<String>, String>| row_view(r)),
        }
    }
}

/// Each record that was read has as many fields as the header row.
pub open spec fn rows_fit_header(t: CsvTableModel) -> bool {
    t.headers is Ok ==> forall|i: int|
        0 <= i < t.rows.len() && (#[trigger] t.rows[i]) is Ok ==> match (t.rows[i], t.headers) {
            (Ok(row), Ok(h)) => row.len() == h.len(),
            _ => true,
        }
}

/// The first record that could not be read: its index and the error.
pub open spec fn first_row_error(rows: Seq<Result<Seq<Seq<char>>, Seq<char>>>) -> Option<
    (nat, Seq<char>),
>
    decreases rows.len(),
{
    if rows.len() == 0 {
        None
    } else {
        match rows[0] {
            Err(e) => Some((0, e)),
            Ok(_) => match first_row_error(rows.drop_first()) {
                Some((k, e)) => Some((k + 1, e)),
                None => None,
            },
        }
    }
}

pub open spec fn ok_rows(rows: Seq<Result<Seq<Seq<char>>, Seq<char>>>) -> Seq<Seq<Seq<char>>> {
    rows.map_values(
        |r: Result<Seq<Seq<char>>, Seq<char>>|
            match r {
                Ok(v) => v,
                Err(_) => Seq::empty(),
            },
    )
}

/// What the CSV ingestor answers for a file read as `t`.
pub open spec fn csv_ingest_spec(filename: Seq<char>, t: CsvTableModel) -> Result<
    Seq<RecordModel>,
    Seq<char>,
> {
    match t.headers {
        Err(e) => Err("'"@ + filename + "': bad CSV headers: "@ + e),
        Ok(h) => match first_row_error(t.rows) {
            Some((k, e)) => Err("'"@ + filename + "' row "@ + decimal(k) + ": "@ + e),
            None => {
                let rows = ok_rows(t.rows);
                if rows.len() == 0 {
                    Err("'"@ + filename + "' contained no data rows"@)
                } else {
                    Ok(Seq::new(rows.len(), |i: int| csv_row_record(h, rows, i)))
                }
            },
        },
    }
}

/// The table that the `csv` crate reads from these bytes, with a header row
/// and without flexible record lengths.
pub uninterp spec fn csv_table(bytes: Seq<u8>) -> CsvTableModel;

/// What the CSV ingestor answers for a file.
pub open spec fn csv_parse_spec(filename: Seq<char>, bytes: Seq<u8>) -> Result<
    Seq<RecordModel>,
    Seq<char>,
> {
    csv_ingest_spec(filename, csv_table(bytes))
}

/// Reads the bytes with `csv::ReaderBuilder::new().has_headers(true)`:
/// the header row through `Reader::headers`, then every record through
/// `Reader::records`, each error by its `Display` text. The table is the
/// name `csv_table` of the bytes. The reader is not flexible, so every
/// record that it returns has as many fields as the header row.
#[verifier::external_body]
fn read_csv_table(bytes: &[u8]) -> (t: CsvTable)
    ensures
        t@ == csv_table(bytes@),
        rows_fit_header(t@),
{
    let mut reader = csv::ReaderBuilder::new().has_headers(true).from_reader(bytes);
    let headers = match reader.headers() {
        Ok(h) => Ok(h.iter().map(|v| v.to_string()).collect()),
        Err(e) => Err(e.to_string()),
    };
    let rows = reader.records().map(|rec| match rec {
        Ok(row) => Ok(row.iter().map(|v| v.to_string()).collect()),
        Err(e) => Err(e.to_string()),
    }).collect();
    CsvTable { headers, rows }
}

proof fn lemma_first_row_error(rows: Seq<Result<Seq<Seq<char>>, Seq<char>>>, i: int)
    requires
        0 <= i <= rows.len(),
        forall|j: int| 0 <= j < i ==> (#[trigger] rows[j]) is Ok,
    ensures
        i == rows.len() ==> first_row_error(rows) is None,
        i < rows.len() ==> match rows[i] {
            Err(e) => first_row_error(rows) == Some((i as nat, e)),
            Ok(_) => true,
        },
    decreases i,
{
    if rows.len() > 0 && i > 0 {
        assert(rows[0] is Ok);
        let tail = rows.drop_first();
        assert forall|j: int| 0 <= j < i - 1 implies (#[trigger] tail[j]) is Ok by {
            assert(tail[j] == rows[j + 1]);
        }
        lemma_first_row_error(tail, i - 1);
        if i < rows.len() {
            assert(tail[i - 1] == rows[i]);
        }
    }
}

/// The first record that could not be read, with its index.
fn first_error(rows: &Vec<Result<Vec<String>, String>>) -> (r: Option<(usize, String)>)
    ensures
        match r {
            Some((k, e)) => first_row_error(rows@.map_values(|r: Result<Vec<String>, String>| row_view(r)))
                == Some((k as nat, e@)),
            None => first_row_error(rows@.map_values(|r: Result<Vec<String>, String>| row_view(r))) is None,
        },
{
    let ghost rv = rows@.map_values(|r: Result<Vec<String>, String>| row_view(r));
    let n = rows.len();
    for i in 0..n
        invariant
            n == rows@.len(),
            rv == rows@.map_values(|r: Result<Vec<String>, String>| row_view(r)),
            forall|j: int| 0 <= j < i ==> (#[trigger] rv[j]) is Ok,
    {
        match &rows[i] {
            Err(e) => {
                proof {
                    assert(rv[i as int] == row_view(rows@[i as int]));
                    lemma_first_row_error(rv, i as int);
                }
                return Some((i, e.clone()));
            },
            Ok(_) => {
                assert(rv[i as int] == row_view(rows@[i as int]));
            },
        }
    }
    proof {
        lemma_first_row_error(rv, n as int);
    }
    None
}

/// The values of column `j`, one per row.
fn column_values<'a>(rows: &'a Vec<Result<Vec<String>, String>>, j: usize) -> (vals: Vec<&'a str>)
    requires
        forall|i: int| 0 <= i < rows@.len() ==> match #[trigger] rows@[i] {
            Ok(row) => j < row@.len(),
            Err(_) => false,
        },
    ensures
        strs_view(vals@) == column(
            ok_rows(rows@.map_values(|r: Result<Vec<String>, String>| row_view(r))),
            j as int,
        ),
{
    let ghost data = ok_rows(rows@.map_values(|r: Result<Vec<String>, String>| row_view(r)));
    let mut vals: Vec<&'a str> = Vec::new();
    let n = rows.len();
    for i in 0..n
        invariant
            n == rows@.len(),
            data == ok_rows(rows@.map_values(|r: Result<Vec<String>, String>| row_view(r))),
            forall|i: int| 0 <= i < rows@.len() ==> match #[trigger] rows@[i] {
                Ok(row) => j < row@.len(),
                Err(_) => false,
            },
            vals@.len() == i,
            forall|k: int| 0 <= k < i ==> (#[trigger] vals@[k])@ == data[k][j as int],
    {
        match &rows[i] {
            Ok(row) => {
                vals.push(row[j].as_str());
                assert(data[i as int] == strings_view(row@));
            },
            Err(_) => {
                assert(false);
            },
        }
    }
    assert(strs_view(vals@) =~= column(data, j as int));
    vals
}

/// The record for one data row.
fn row_record(
    headers: &Vec<String>,
    row: &Vec<String>,
    col_types: &Vec<ColumnType>,
    i: usize,
) -> (rec: Record)
    requires
        col_types@.len() == headers@.len(),
    ensures
        ({
            let n = min_len(headers@.len(), row@.len()) as int;
            rec@ == (RecordModel {
                asset_type: "csv_row"@,
                payload: PayloadModel::CsvRow(
                    last_key_positions(strings_view(headers@), n, n).map_values(
                        |j: int| (headers@[j]@, coerce_spec(row@[j]@, col_types@[j])),
                    ),
                ),
                row_index: Some(i as i32),
            })
        }),
{
    let n = if headers.len() <= row.len() {
        headers.len()
    } else {
        row.len()
    };
    let ghost h = strings_view(headers@);
    let mut fields: Vec<(String, CellValue)> = Vec::new();
    for j in 0..n
        invariant
            n == min_len(headers@.len(), row@.len()),
            n <= headers@.len(),
            h == strings_view(headers@),
            col_types@.len() == headers@.len(),
            super::fields_view(fields@) == last_key_positions(h, n as int, j as int).map_values(
                |q: int| (headers@[q]@, coerce_spec(row@[q]@, col_types@[q])),
            ),
    {
        let last = super::key_is_last(headers, n, j);
        let ghost before = fields@;
        if last {
            let cell = coerce_cell(row[j].as_str(), &col_types[j]);
            fields.push((headers[j].clone(), cell));
            assert(super::fields_view(fields@) =~= super::fields_view(before).push(
                (headers@[j as int]@, coerce_spec(row@[j as int]@, col_types@[j as int])),
            ));
        }
        assert(last_key_positions(h, n as int, j + 1).map_values(
            |q: int| (headers@[q]@, coerce_spec(row@[q]@, col_types@[q])),
        ) =~= if last {
            last_key_positions(h, n as int, j as int).map_values(
                |q: int| (headers@[q]@, coerce_spec(row@[q]@, col_types@[q])),
            ).push((headers@[j as int]@, coerce_spec(row@[j as int]@, col_types@[j as int])))
        } else {
            last_key_positions(h, n as int, j as int).map_values(
                |q: int| (headers@[q]@, coerce_spec(row@[q]@, col_types@[q])),
            )
        });
    }
    Record { asset_type: "csv_row", payload: Payload::CsvRow(fields), row_index: Some(i as i32) }
}

impl CsvIngestor {
    /// Turns a table read from a CSV file into records: every header with the
    /// row's cell, each column typed by inferring from all of its values.
    pub fn ingest_table(filename: &str, table: &CsvTable) -> (r: Result<Vec<Record>, IngestError>)
        requires
            rows_fit_header(table@),
        ensures
            outcome_view(r) == csv_ingest_spec(filename@, table@),
    {
        let headers = match &table.headers {
            Err(e) => {
                return Err(
                    IngestError::Malformed(
                        concat4("'", filename, "': bad CSV headers: ", e.as_str()),
                    ),
                );
            },
            Ok(h) => h,
        };
        match first_error(&table.rows) {
            Some((k, e)) => {
                let idx = decimal_string(k as u64);
                let mut msg = concat5("'", filename, "' row ", idx.as_str(), ": ");
                msg.append(e.as_str());
                return Err(IngestError::Malformed(msg));
            },
            None => {},
        }
        let ghost t = table@;
        let ghost h = strings_view(headers@);
        let ghost data = ok_rows(t.rows);
        let nrows = table.rows.len();
        if nrows == 0 {
            return Err(
                IngestError::Malformed(concat3("'", filename, "' contained no data rows")),
            );
        }
        // Every record was read: each is Ok and as long as the header row.
        assert forall|i: int| 0 <= i < table.rows@.len() implies match #[trigger] table.rows@[i] {
            Ok(row) => headers@.len() <= row@.len(),
            Err(_) => false,
        } by {
            assert(t.rows[i] == row_view(table.rows@[i]));
            if table.rows@[i] is Err {
                lemma_first_error_exists(t.rows, i);
            }
        }
        let ncols = headers.len();
        let mut col_types: Vec<ColumnType> = Vec::new();
        for j in 0..ncols
            invariant
                ncols == headers@.len(),
                data == ok_rows(table@.rows),
                forall|i: int| 0 <= i < table.rows@.len() ==> match #[trigger] table.rows@[i] {
                    Ok(row) => headers@.len() <= row@.len(),
                    Err(_) => false,
                },
                col_types@.len() == j,
                forall|c: int| 0 <= c < j ==> #[trigger] col_types@[c] == infer_spec(column(data, c)),
        {
            let vals = column_values(&table.rows, j);
            col_types.push(infer_column_type(vals.as_slice()));
        }
        let mut records: Vec<Record> = Vec::new();
        for i in 0..nrows
            invariant
                nrows == table.rows@.len(),
                ncols == headers@.len(),
                h == strings_view(headers@),
                data == ok_rows(table@.rows),
                forall|i: int| 0 <= i < table.rows@.len() ==> match #[trigger] table.rows@[i] {
                    Ok(row) => headers@.len() <= row@.len(),
                    Err(_) => false,
                },
                col_types@.len() == ncols,
                forall|c: int| 0 <= c < ncols ==> #[trigger] col_types@[c] == infer_spec(column(data, c)),
                records@.len() == i,
                forall|k: int| 0 <= k < i ==> (#[trigger] records@[k])@ == csv_row_record(h, data, k),
        {
            match &table.rows[i] {
                Ok(row) => {
                    let rec = row_record(headers, row, &col_types, i);
                    proof {
                        assert(data[i as int] == strings_view(row@));
                        assert(rec@ == csv_row_record(h, data, i as int)) by {
                            let n = min_len(h.len(), data[i as int].len()) as int;
                            super::lemma_last_key_positions(h, n, n);
                            assert(last_key_positions(h, n, n).map_values(
                                |j: int| (headers@[j]@, coerce_spec(row@[j]@, col_types@[j])),
                            ) =~= last_key_positions(h, n, n).map_values(
                                |j: int| (h[j], coerce_spec(data[i as int][j], infer_spec(column(data, j)))),
                            ));
                        }
                    }
                    records.push(rec);
                },
                Err(_) => {
                    assert(false);
                },
            }
        }
        assert(super::records_view(records@) =~= Seq::new(
            data.len(),
            |i: int| csv_row_record(h, data, i),
        ));
        Ok(records)
    }
}

proof fn lemma_first_error_exists(rows: Seq<Result<Seq<Seq<char>>, Seq<char>>>, i: int)
    requires
        0 <= i < rows.len(),
        rows[i] is Err,
    ensures
        first_row_error(rows) is Some,
    decreases i,
{
    if i > 0 && rows[0] is Ok {
        assert(rows.drop_first()[i - 1] == rows[i]);
        lemma_first_error_exists(rows.drop_first(), i - 1);
    }
}

/// A column gets one consistent type: every non-empty cell of a column
/// converted with the column's inferred type becomes a value of that type
/// (an integer in an integer column, a float in a float column, text in a
/// text column), never a fallback to text; and every empty cell becomes null.
pub proof fn lemma_column_cells_take_column_type(vals: Seq<Seq<char>>, i: int)
    requires
        0 <= i < vals.len(),
    ensures
        vals[i].len() == 0 ==> coerce_spec(vals[i], infer_spec(vals)) is Null,
        vals[i].len() > 0 ==> match infer_spec(vals) {
            ColumnType::Integer => coerce_spec(vals[i], infer_spec(vals)) is Integer,
            ColumnType::Float => coerce_spec(vals[i], infer_spec(vals)) is Float,
            ColumnType::Text => coerce_spec(vals[i], infer_spec(vals)) is Text,
        },
{
    if vals[i].len() > 0 {
        assert(vals[i].len() > 0);
    }
}

/// Every integer literal is also a float literal, so integer columns would
/// also pass as float columns; `Integer` is chosen first, and a column of
/// integers never widens to `Float`.
pub proof fn lemma_integer_columns_do_not_widen(vals: Seq<Seq<char>>)
    requires
        exists|i: int| 0 <= i < vals.len() && (#[trigger] vals[i]).len() > 0,
        forall|i: int|
            0 <= i < vals.len() && (#[trigger] vals[i]).len() > 0 ==> parse_i64_spec(vals[i]) is Some,
    ensures
        infer_spec(vals) == ColumnType::Integer,
        forall|i: int|
            0 <= i < vals.len() && (#[trigger] vals[i]).len() > 0 ==> float_literal(vals[i]),
{
    assert forall|i: int|
        0 <= i < vals.len() && (#[trigger] vals[i]).len() > 0 implies float_literal(vals[i]) by {
        lemma_integer_literal_is_float_literal(vals[i]);
    }
}

/// Whatever `i64::from_str` accepts, `f64::from_str` accepts too.
pub proof fn lemma_integer_literal_is_float_literal(s: Seq<char>)
    requires
        parse_i64_spec(s) is Some,
    ensures
        float_literal(s),
{
    let b = if s.len() > 0 && crate::text::is_sign(s[0]) {
        s.drop_first()
    } else {
        s
    };
    assert(b.len() > 0 && crate::text::all_digits(b));
    assert(crate::text::float_mantissa(b));
}

/// The record is the CSV record of data row `i` of `rows`: its keys are
/// exactly the header names, none twice, and the value of each is the typed
/// cell of the last column carrying that name.
pub open spec fn row_record_with_headers(
    r: RecordModel,
    h: Seq<Seq<char>>,
    rows: Seq<Seq<Seq<char>>>,
    i: int,
) -> bool {
    &&& r.asset_type == "csv_row"@
    &&& r.row_index == Some(i as i32)
    &&& match r.payload {
        PayloadModel::CsvRow(fields) => {
            &&& forall|a: int, b: int|
                0 <= a < b < fields.len() ==> (#[trigger] fields[a]).0 != (#[trigger] fields[b]).0
            &&& forall|j: int|
                0 <= j < h.len() ==> fields.map_values(|x: (Seq<char>, CellModel)| x.0).contains(
                    #[trigger] h[j],
                )
            &&& forall|f: int|
                #![trigger fields[f]]
                0 <= f < fields.len() ==> exists|j: int|
                    0 <= j < h.len() && #[trigger] is_last_key(h, h.len() as int, j) && fields[f]
                        == (h[j], coerce_spec(rows[i][j], infer_spec(column(rows, j))))
        },
        _ => false,
    }
}

/// A CSV file that is read without error gives exactly one record per data
/// row, in order and numbered by position; each record's keys are exactly
/// the header names, none twice, and a repeated header keeps the value of
/// its last column.
pub proof fn lemma_csv_one_record_per_row(filename: Seq<char>, t: CsvTableModel)
    requires
        rows_fit_header(t),
        csv_ingest_spec(filename, t) is Ok,
    ensures
        match (csv_ingest_spec(filename, t), t.headers) {
            (Ok(rs), Ok(h)) => rs.len() == t.rows.len() && forall|i: int|
                0 <= i < rs.len() ==> row_record_with_headers(#[trigger] rs[i], h, ok_rows(t.rows), i),
            _ => false,
        },
{
    match t.headers {
        Ok(h) => {
            let rows = ok_rows(t.rows);
            let rs = Seq::new(rows.len(), |i: int| csv_row_record(h, rows, i));
            let n = h.len() as int;
            super::lemma_last_key_positions(h, n, n);
            let p = last_key_positions(h, n, n);
            assert forall|i: int| 0 <= i < rs.len() implies row_record_with_headers(
                #[trigger] rs[i],
                h,
                rows,
                i,
            ) by {
                if t.rows[i] is Err {
                    lemma_first_error_exists(t.rows, i);
                }
                assert(rows[i].len() == h.len());
                assert(min_len(h.len(), rows[i].len()) == h.len());
                let fields = p.map_values(
                    |j: int| (h[j], coerce_spec(rows[i][j], infer_spec(column(rows, j)))),
                );
                assert forall|a: int, b: int| 0 <= a < b < fields.len() implies (
                #[trigger] fields[a]).0 != (#[trigger] fields[b]).0 by {
                    assert(p[a] < p[b]);
                }
                assert forall|j: int| 0 <= j < h.len() implies fields.map_values(
                    |x: (Seq<char>, CellModel)| x.0,
                ).contains(#[trigger] h[j]) by {
                    super::lemma_last_occurrence(h, n, j);
                    let l = choose|l: int| j <= l < n && h[l] == h[j] && #[trigger] is_last_key(h, n, l);
                    assert(p.contains(l));
                    let f = choose|f: int| 0 <= f < p.len() && p[f] == l;
                    assert(fields[f].0 == h[j]);
                    assert(fields.map_values(|x: (Seq<char>, CellModel)| x.0)[f] == h[j]);
                }
                assert forall|f: int| #![trigger fields[f]] 0 <= f < fields.len() implies exists|j: int|
                    0 <= j < h.len() && #[trigger] is_last_key(h, h.len() as int, j) && fields[f]
                        == (h[j], coerce_spec(rows[i][j], infer_spec(column(rows, j)))) by {
                    assert(is_last_key(h, n, p[f]));
                }
                assert(rs[i] == csv_row_record(h, rows, i));
                assert(rs[i].payload == PayloadModel::CsvRow(fields));
            }
        },
        Err(_) => {},
    }
}

proof fn lemma_no_row_error(rows: Seq<Result<Seq<Seq<char>>, Seq<char>>>)
    requires
        forall|i: int| 0 <= i < rows.len() ==> (#[trigger] rows[i]) is Ok,
    ensures
        first_row_error(rows) is None,
    decreases rows.len(),
{
    if rows.len() > 0 {
        assert forall|i: int| 0 <= i < rows.drop_first().len() implies (
        #[trigger] rows.drop_first()[i]) is Ok by {
            assert(rows.drop_first()[i] == rows[i + 1]);
        }
        lemma_no_row_error(rows.drop_first());
    }
}

/// When the header row and every data row are read without error, the CSV
/// ingestor accepts the file exactly when it has at least one data row,
/// whatever the number of columns: it then gives one record per data row,
/// in order, each of type "csv_row" numbered by its position; with no data
/// row it answers that the file contained no data rows.
pub proof fn lemma_csv_accepts_any_data_rows(filename: Seq<char>, t: CsvTableModel)
    requires
        t.headers is Ok,
        forall|i: int| 0 <= i < t.rows.len() ==> (#[trigger] t.rows[i]) is Ok,
    ensures
        t.rows.len() > 0 ==> (csv_ingest_spec(filename, t) matches Ok(rs) && rs.len()
            == t.rows.len() && forall|i: int|
            0 <= i < rs.len() ==> (#[trigger] rs[i]).asset_type == "csv_row"@ && rs[i].row_index
                == Some(i as i32) && rs[i].payload is CsvRow),
        t.rows.len() == 0 ==> csv_ingest_spec(filename, t) == Err::<Seq<RecordModel>, Seq<char>>(
            "'"@ + filename + "' contained no data rows"@,
        ),
{
    lemma_no_row_error(t.rows);
}

proof fn lemma_infer_conditions_carry(v1: Seq<Seq<char>>, v2: Seq<Seq<char>>)
    requires
        forall|x: Seq<char>| x.len() > 0 && #[trigger] v2.contains(x) ==> v1.contains(x),
    ensures
        all_empty(v1) ==> all_empty(v2),
        non_empty_are_integers(v1) ==> non_empty_are_integers(v2),
        non_empty_are_floats(v1) ==> non_empty_are_floats(v2),
{
    assert forall|i: int| 0 <= i < v2.len() && (#[trigger] v2[i]).len() > 0 implies exists|k: int|
        0 <= k < v1.len() && v1[k] == v2[i] by {
        assert(v2.contains(v2[i]));
    }
}

/// A column's type depends only on which non-empty values it holds:
/// reordering its cells, or adding or removing empty cells, leaves the type
/// unchanged.
pub proof fn lemma_infer_depends_on_non_empty_values(v1: Seq<Seq<char>>, v2: Seq<Seq<char>>)
    requires
        forall|x: Seq<char>| x.len() > 0 ==> (v1.contains(x) <==> v2.contains(x)),
    ensures
        infer_spec(v1) == infer_spec(v2),
{
    lemma_infer_conditions_carry(v1, v2);
    lemma_infer_conditions_carry(v2, v1);
}

impl Ingestor for CsvIngestor {
    fn parse(&self, filename: &str, bytes: &[u8]) -> (r: Result<Vec<Record>, IngestError>)
        ensures
            outcome_view(r) == csv_parse_spec(filename@, bytes@),
            rows_fit_header(csv_table(bytes@)),
    {
        let table = read_csv_table(bytes);
        CsvIngestor::ingest_table(filename, &table)
    }
}

} // verus!
