//! CSV text and the tables of fields it stands for.
//!
//! Reading and writing the CSV dialect itself is left to the `csv` crate. The
//! functions here turn bytes into rows of fields and rows of fields into
//! bytes; what a row means is decided by the entity modules.

use vstd::prelude::*;
use crate::tag::opt_view;
use crate::text::texts;

verus! {

/// The error type of the `csv` crate, carried through unopened.
#[verifier::external_type_specification]
#[verifier::external_body]
pub struct ExCsvError(csv::Error);

/// The rows that the `csv` crate reads from `data` when no row is taken for
/// a header, or `None` where it reports an error.
pub uninterp spec fn csv_rows(data: Seq<u8>) -> Option<Seq<Seq<Seq<char>>>>;

/// The bytes that the `csv` crate writes for one record of these fields, or
/// `None` where it reports an error.
pub uninterp spec fn csv_line(fields: Seq<Seq<char>>) -> Option<Seq<u8>>;

/// The text that `str::trim` leaves of `text`.
pub uninterp spec fn trimmed(text: Seq<char>) -> Seq<char>;

/// The fields of each row of a table.
pub open spec fn tables(rows: Seq<Vec<String>>) -> Seq<Seq<Seq<char>>> {
    Seq::new(rows.len(), |i: int| texts(rows[i]@))
}

/// Calls `csv::Reader::records` on a reader built over `data` with
/// `has_headers(false)`, and collects every record's fields as strings. The
/// contract only names the outcome: the same bytes give the same rows, and an
/// error of the crate is handed on.
#[verifier::external_body]
pub(crate) fn read_rows(data: &[u8]) -> (res: Result<Vec<Vec<String>>, csv::Error>)
    ensures
        match res {
            Ok(rows) => csv_rows(data@) == Some(tables(rows@)),
            Err(_) => csv_rows(data@).is_none(),
        },
{
    let mut reader = csv::ReaderBuilder::new().has_headers(false).from_reader(data);
    let mut rows: Vec<Vec<String>> = Vec::new();
    for record in reader.records() {
        let record = record?;
        rows.push(record.iter().map(|field| field.to_string()).collect());
    }
    Ok(rows)
}

/// Calls `csv::Writer::write_record` once on a writer built with
/// `has_headers(false)` over an empty buffer and returns the buffer. The
/// contract only names the outcome: the same fields give the same bytes, and
/// an error of the crate is handed on.
#[verifier::external_body]
pub(crate) fn write_row(fields: &Vec<String>) -> (res: Result<Vec<u8>, csv::Error>)
    ensures
        match res {
            Ok(bytes) => csv_line(texts(fields@)) == Some(bytes@),
            Err(_) => csv_line(texts(fields@)).is_none(),
        },
{
    let mut writer = csv::WriterBuilder::new().has_headers(false).from_writer(Vec::new());
    writer.write_record(fields)?;
    writer.into_inner().map_err(|e| csv::Error::from(e.into_error()))
}

/// Calls `str::trim`, which removes leading and trailing whitespace. Nothing
/// is left of an empty text.
#[verifier::external_body]
pub(crate) fn trim(text: &str) -> (res: String)
    ensures
        res@ == trimmed(text@),
        text@.len() == 0 ==> res@.len() == 0,
{
    text.trim().to_string()
}

/// The bytes of all rows written one after the other, or `None` where one of
/// them cannot be written.
pub open spec fn csv_lines(rows: Seq<Seq<Seq<char>>>) -> Option<Seq<u8>>
    decreases rows.len(),
{
    if rows.len() == 0 {
        Some(Seq::empty())
    } else {
        match (csv_lines(rows.drop_last()), csv_line(rows.last())) {
            (Some(head), Some(line)) => Some(head + line),
            _ => None,
        }
    }
}

/// The table starts with the expected header row.
pub open spec fn header_ok(table: Seq<Seq<Seq<char>>>, header: Seq<Seq<char>>) -> bool {
    table.len() > 0 && table[0] == header
}

/// Every row below the header has `width` fields.
pub open spec fn rows_even(table: Seq<Seq<Seq<char>>>, width: nat) -> bool {
    forall|k: int| 1 <= k < table.len() ==> (#[trigger] table[k]).len() == width
}

/// Row `i` is the first below the header that has not `width` fields.
pub open spec fn first_bad_row(table: Seq<Seq<Seq<char>>>, width: nat, i: int) -> bool {
    &&& 1 <= i < table.len()
    &&& table[i].len() != width
    &&& forall|k: int| 1 <= k < i ==> (#[trigger] table[k]).len() == width
}

/// A field that is empty stands for an absent value.
pub open spec fn blank_to_none(field: Seq<char>) -> Option<Seq<char>> {
    if field.len() == 0 {
        None
    } else {
        Some(field)
    }
}

/// An absent value is written as an empty field.
pub open spec fn none_to_blank(value: Option<Seq<char>>) -> Seq<char> {
    match value {
        Some(text) => text,
        None => Seq::empty(),
    }
}

/// Reads a field in which an empty text stands for an absent value.
pub fn optional(field: &String) -> (res: Option<String>)
    ensures
        opt_view(res) == blank_to_none(field@),
{
    if field.as_str().is_empty() {
        None
    } else {
        Some(field.clone())
    }
}

/// Writes an optional value as a field, empty where the value is absent.
pub fn or_blank(value: &Option<String>) -> (res: String)
    ensures
        res@ == none_to_blank(opt_view(*value)),
{
    match value {
        Some(text) => text.clone(),
        None => String::new(),
    }
}

/// Whether a string holds exactly the text of a literal.
pub fn is_text(value: &String, literal: &str) -> (res: bool)
    ensures
        res == (value@ == literal@),
{
    let other = literal.to_owned();
    *value == other
}

/// Whether the row holds exactly the given column names, in their order.
pub fn row_is(row: &Vec<String>, names: &Vec<String>) -> (res: bool)
    ensures
        res == (texts(row@) == texts(names@)),
{
    if row.len() != names.len() {
        assert(texts(row@).len() != texts(names@).len());
        return false;
    }
    let mut i: usize = 0;
    while i < row.len()
        invariant
            i <= row@.len(),
            row@.len() == names@.len(),
            forall|k: int| 0 <= k < i ==> row@[k]@ == names@[k]@,
        decreases row@.len() - i,
    {
        if row[i] != names[i] {
            assert(texts(row@)[i as int] != texts(names@)[i as int]);
            return false;
        }
        i += 1;
    }
    assert(texts(row@) =~= texts(names@));
    true
}

/// The first row at or after `from` that has not `width` fields, if any.
pub fn first_uneven(rows: &Vec<Vec<String>>, from: usize, width: usize) -> (res: Option<usize>)
    ensures
        match res {
            Some(i) => from <= i < rows@.len() && rows@[i as int]@.len() != width && forall|k: int|
                from <= k < i ==> (#[trigger] rows@[k])@.len() == width,
            None => forall|k: int| from <= k < rows@.len() ==> (#[trigger] rows@[k])@.len() == width,
        },
{
    let mut i: usize = from;
    while i < rows.len()
        invariant
            from <= i,
            forall|k: int| from <= k < i && k < rows@.len() ==> (#[trigger] rows@[k])@.len() == width,
        decreases rows@.len() - i,
    {
        if rows[i].len() != width {
            return Some(i);
        }
        i += 1;
    }
    None
}

/// Writes every row as one CSV record and joins the bytes. The first row that
/// cannot be written ends the work with the crate's error.
pub fn encode_rows(rows: &Vec<Vec<String>>) -> (res: Result<Vec<u8>, csv::Error>)
    ensures
        match res {
            Ok(bytes) => csv_lines(tables(rows@)) == Some(bytes@),
            Err(_) => csv_lines(tables(rows@)).is_none(),
        },
{
    let mut out: Vec<u8> = Vec::new();
    let mut i: usize = 0;
    assert(tables(rows@).take(0) =~= Seq::empty());
    while i < rows.len()
        invariant
            i <= rows@.len(),
            csv_lines(tables(rows@).take(i as int)) == Some(out@),
        decreases rows@.len() - i,
    {
        let ghost done = tables(rows@).take(i as int);
        let ghost next = tables(rows@).take(i + 1);
        proof {
            assert(next.drop_last() =~= done);
            assert(next.last() == texts(rows@[i as int]@));
        }
        match write_row(&rows[i]) {
            Ok(mut line) => {
                out.append(&mut line);
            },
            Err(e) => {
                proof {
                    lemma_csv_lines_fail(tables(rows@), i + 1);
                }
                return Err(e);
            },
        }
        i += 1;
    }
    assert(tables(rows@).take(i as int) =~= tables(rows@));
    Ok(out)
}

/// Once a prefix of the rows cannot be written, neither can the whole.
proof fn lemma_csv_lines_fail(rows: Seq<Seq<Seq<char>>>, n: int)
    requires
        0 <= n <= rows.len(),
        csv_lines(rows.take(n)).is_none(),
    ensures
        csv_lines(rows).is_none(),
    decreases rows.len() - n,
{
    if n < rows.len() {
        assert(rows.take(n + 1).drop_last() =~= rows.take(n));
        lemma_csv_lines_fail(rows, n + 1);
    } else {
        assert(rows.take(n) =~= rows);
    }
}

} // verus!
