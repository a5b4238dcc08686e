//! CSV to HTML: the records of a CSV file as one HTML table.
//!
//! The header line gives the `<th>` cells of the first row; each record
//! gives one row of `<td>` cells. The fields are written as they are: nothing
//! is escaped.

use vstd::prelude::*;
use crate::error::{text_outcome, ConvertError, Failure};
use crate::table_laws::lemma_table_not_empty;

verus! {

/// The characters of each string of a sequence.
pub open spec fn texts(cells: Seq<String>) -> Seq<Seq<char>> {
    Seq::new(cells.len(), |i: int| cells[i]@)
}

/// The characters of each field of each record.
pub open spec fn tables(rows: Seq<Vec<String>>) -> Seq<Seq<Seq<char>>> {
    Seq::new(rows.len(), |i: int| texts(rows[i]@))
}

/// The markup of the first `upto` cells of a row, each between `open` and
/// `close`.
pub open spec fn cells_markup(
    cells: Seq<Seq<char>>,
    open: Seq<char>,
    close: Seq<char>,
    upto: int,
) -> Seq<char>
    decreases upto,
{
    if upto <= 0 {
        Seq::<char>::empty()
    } else {
        cells_markup(cells, open, close, upto - 1) + open + cells[upto - 1] + close
    }
}

/// The markup of the header cells.
pub open spec fn header_markup(headers: Seq<Seq<char>>) -> Seq<char> {
    cells_markup(headers, "<th>"@, "</th>"@, headers.len() as int)
}

/// The markup of one record: a row of data cells.
pub open spec fn row_markup(row: Seq<Seq<char>>) -> Seq<char> {
    "<tr>"@ + cells_markup(row, "<td>"@, "</td>"@, row.len() as int) + "</tr>"@
}

/// The markup of the first `upto` records.
pub open spec fn rows_markup(rows: Seq<Seq<Seq<char>>>, upto: int) -> Seq<char>
    decreases upto,
{
    if upto <= 0 {
        Seq::<char>::empty()
    } else {
        rows_markup(rows, upto - 1) + row_markup(rows[upto - 1])
    }
}

/// What opens the document, up to the start of the header row.
pub open spec fn table_opening() -> Seq<char> {
    "<!DOCTYPE html><html><body><table><tr>"@
}

/// What closes the document.
pub open spec fn table_closing() -> Seq<char> {
    "</table></body></html>"@
}

/// The HTML document that shows a header row and records as a table.
pub open spec fn html_table(headers: Seq<Seq<char>>, rows: Seq<Seq<Seq<char>>>) -> Seq<char> {
    table_opening() + header_markup(headers) + "</tr>"@ + rows_markup(rows, rows.len() as int)
        + table_closing()
}

/// Appends the markup of the cells of a row.
fn append_cells(out: &mut String, cells: &Vec<String>, open: &str, close: &str)
    ensures
        final(out)@ == old(out)@ + cells_markup(texts(cells@), open@, close@, cells@.len() as int),
{
    let ghost before = out@;
    let mut i: usize = 0;
    assert(out@ =~= before + cells_markup(texts(cells@), open@, close@, 0));
    while i < cells.len()
        invariant
            i <= cells@.len(),
            out@ == before + cells_markup(texts(cells@), open@, close@, i as int),
        decreases cells@.len() - i,
    {
        let ghost so_far = cells_markup(texts(cells@), open@, close@, i as int);
        out.append(open);
        out.append(cells[i].as_str());
        out.append(close);
        assert(out@ =~= before + (so_far + open@ + cells@[i as int]@ + close@));
        i = i + 1;
    }
}

/// Writes a header row and records as an HTML table.
pub fn render_table(headers: &Vec<String>, rows: &Vec<Vec<String>>) -> (html: String)
    ensures
        html@ == html_table(texts(headers@), tables(rows@)),
        html@.len() > 0,
{
    proof {
        lemma_table_not_empty(texts(headers@), tables(rows@));
    }
    let mut html: String = "<!DOCTYPE html><html><body><table><tr>".to_owned();
    append_cells(&mut html, headers, "<th>", "</th>");
    html.append("</tr>");
    let ghost head = html@;
    let mut i: usize = 0;
    assert(html@ =~= head + rows_markup(tables(rows@), 0));
    while i < rows.len()
        invariant
            i <= rows@.len(),
            html@ == head + rows_markup(tables(rows@), i as int),
        decreases rows@.len() - i,
    {
        let ghost so_far = rows_markup(tables(rows@), i as int);
        html.append("<tr>");
        append_cells(&mut html, &rows[i], "<td>", "</td>");
        html.append("</tr>");
        assert(html@ =~= head + (so_far + row_markup(tables(rows@)[i as int])));
        i = i + 1;
    }
    html.append("</table></body></html>");
    html
}

/// The header row that `csv::Reader::headers` reads from an input, or the
/// message of the error that it gives.
pub uninterp spec fn csv_header_row(input: Seq<u8>) -> Result<Seq<Seq<char>>, Seq<char>>;

/// The records that `csv::Reader::records` reads from an input, up to the
/// end, or the message of the first error that it gives.
pub uninterp spec fn csv_data_rows(input: Seq<u8>) -> Result<Seq<Seq<Seq<char>>>, Seq<char>>;

/// The model of a header row that was read, or of the error.
pub open spec fn row_read(row: Result<Vec<String>, String>) -> Result<Seq<Seq<char>>, Seq<char>> {
    match row {
        Ok(cells) => Ok(texts(cells@)),
        Err(message) => Err(message@),
    }
}

/// The model of records that were read, or of the error.
pub open spec fn rows_read(rows: Result<Vec<Vec<String>>, String>) -> Result<
    Seq<Seq<Seq<char>>>,
    Seq<char>,
> {
    match rows {
        Ok(records) => Ok(tables(records@)),
        Err(message) => Err(message@),
    }
}

/// Calls `csv::Reader::headers` on a reader over the input, made by
/// `csv::Reader::from_reader`, and hands out the fields of the header row
/// as strings, or the message of the error. The contract names the outcome
/// `csv_header_row` and says nothing else of it.
#[verifier::external_body]
fn csv_headers(input: &[u8]) -> (row: Result<Vec<String>, String>)
    ensures
        row_read(row) == csv_header_row(input@),
{
    match csv::Reader::from_reader(input).headers() {
        Ok(record) => Ok(record.iter().map(|field| field.to_owned()).collect()),
        Err(error) => Err(error.to_string()),
    }
}

/// Calls `csv::Reader::records` on a reader over the input, made by
/// `csv::Reader::from_reader`, and hands out the fields of every record as
/// strings, or the message of the first error. The contract names the
/// outcome `csv_data_rows` and says nothing else of it.
#[verifier::external_body]
fn csv_records(input: &[u8]) -> (rows: Result<Vec<Vec<String>>, String>)
    ensures
        rows_read(rows) == csv_data_rows(input@),
{
    csv::Reader::from_reader(input)
        .records()
        .map(|record| record.map(|fields| fields.iter().map(|field| field.to_owned()).collect()))
        .collect::<Result<Vec<Vec<String>>, csv::Error>>()
        .map_err(|error| error.to_string())
}

/// The outcome of the conversion for a header row and records as they were
/// read: the table, or the error of the header row, or else that of the
/// records.
pub open spec fn table_or_error(
    headers: Result<Seq<Seq<char>>, Seq<char>>,
    rows: Result<Seq<Seq<Seq<char>>>, Seq<char>>,
) -> Result<Seq<char>, Failure> {
    match headers {
        Err(message) => Err(Failure::Csv(message)),
        Ok(cells) => match rows {
            Err(message) => Err(Failure::Csv(message)),
            Ok(records) => Ok(html_table(cells, records)),
        },
    }
}

/// Turns a header row and records, as they were read, into the table or
/// into the error.
pub fn table_from(headers: Result<Vec<String>, String>, rows: Result<Vec<Vec<String>>, String>) -> (result:
    Result<String, ConvertError>)
    ensures
        text_outcome(result) == table_or_error(row_read(headers), rows_read(rows)),
        result matches Ok(html) ==> html@.len() > 0,
{
    match headers {
        Err(message) => Err(ConvertError::Csv(message)),
        Ok(cells) => match rows {
            Err(message) => Err(ConvertError::Csv(message)),
            Ok(records) => Ok(render_table(&cells, &records)),
        },
    }
}

/// The outcome of CSV to HTML for the bytes of a file.
pub open spec fn csv_as_html(input: Seq<u8>) -> Result<Seq<char>, Failure> {
    table_or_error(csv_header_row(input), csv_data_rows(input))
}

/// Converts the bytes of a CSV file into an HTML document with one table.
pub fn csv_to_html(input: &[u8]) -> (result: Result<String, ConvertError>)
    ensures
        text_outcome(result) == csv_as_html(input@),
        result matches Ok(html) ==> html@.len() > 0,
{
    let headers = csv_headers(input);
    let rows = csv_records(input);
    table_from(headers, rows)
}

} // verus!
