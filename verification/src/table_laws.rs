//! What holds of every table that the CSV converter writes: how many cells
//! and rows stand in the markup, and where each field stands.

use vstd::prelude::*;
use crate::html::{
    cells_markup, header_markup, html_table, row_markup, rows_markup, table_closing, table_opening,
};
use crate::occurrences::{
    lemma_bracket_ends_straddle, lemma_count_in_markup, lemma_count_joined, lemma_stands_inside,
    lemma_tail_ends_straddle, occurrences, one_bracket, stands_at,
};

verus! {

/// Whether a tag opens a header cell, a data cell or a row.
pub open spec fn opens_cell_or_row(tag: Seq<char>) -> bool {
    tag == "<th>"@ || tag == "<td>"@ || tag == "<tr>"@
}

/// One if the two texts are equal, else zero.
pub open spec fn one_if_same(a: Seq<char>, b: Seq<char>) -> nat {
    if a == b {
        1
    } else {
        0
    }
}

/// The number `n` if the two texts are equal, else zero.
pub open spec fn all_if_same(a: Seq<char>, b: Seq<char>, n: nat) -> nat {
    if a == b {
        n
    } else {
        0
    }
}

/// Number of places inside the first `upto` cells at which `tag` stands.
pub open spec fn tags_in_cells(cells: Seq<Seq<char>>, tag: Seq<char>, upto: int) -> nat
    decreases upto,
{
    if upto <= 0 {
        0
    } else {
        tags_in_cells(cells, tag, upto - 1) + occurrences(cells[upto - 1], tag)
    }
}

/// Number of places inside the fields of the first `upto` records at which
/// `tag` stands.
pub open spec fn tags_in_rows(rows: Seq<Seq<Seq<char>>>, tag: Seq<char>, upto: int) -> nat
    decreases upto,
{
    if upto <= 0 {
        0
    } else {
        tags_in_rows(rows, tag, upto - 1) + tags_in_cells(
            rows[upto - 1],
            tag,
            rows[upto - 1].len() as int,
        )
    }
}

/// Number of fields of the first `upto` records.
pub open spec fn fields_in_rows(rows: Seq<Seq<Seq<char>>>, upto: int) -> nat
    decreases upto,
{
    if upto <= 0 {
        0
    } else {
        fields_in_rows(rows, upto - 1) + rows[upto - 1].len()
    }
}

/// The tags that open cells and rows have one bracket and four characters,
/// and each stands once in itself and in no other piece of the markup but
/// the row tag, which stands once in the opening.
proof fn lemma_pieces(tag: Seq<char>)
    requires
        opens_cell_or_row(tag),
    ensures
        one_bracket(tag),
        tag.len() == 4,
        one_bracket("<th>"@) && "<th>"@.len() == 4,
        one_bracket("<td>"@) && "<td>"@.len() == 4,
        one_bracket("<tr>"@) && "<tr>"@.len() == 4,
        one_bracket("</th>"@),
        one_bracket("</td>"@),
        one_bracket("</tr>"@),
        occurrences("<th>"@, tag) == one_if_same(tag, "<th>"@),
        occurrences("<td>"@, tag) == one_if_same(tag, "<td>"@),
        occurrences("<tr>"@, tag) == one_if_same(tag, "<tr>"@),
        occurrences("</th>"@, tag) == 0,
        occurrences("</td>"@, tag) == 0,
        occurrences("</tr>"@, tag) == 0,
{
    reveal_strlit("<th>");
    reveal_strlit("<td>");
    reveal_strlit("<tr>");
    reveal_strlit("</th>");
    reveal_strlit("</td>");
    reveal_strlit("</tr>");
    lemma_count_in_markup("<th>"@, tag);
    lemma_count_in_markup("<td>"@, tag);
    lemma_count_in_markup("<tr>"@, tag);
    lemma_count_in_markup("</th>"@, tag);
    lemma_count_in_markup("</td>"@, tag);
    lemma_count_in_markup("</tr>"@, tag);
    assert("<th>"@.subrange(0, 4) =~= "<th>"@);
    assert("<td>"@.subrange(0, 4) =~= "<td>"@);
    assert("<tr>"@.subrange(0, 4) =~= "<tr>"@);
    assert("<th>"@[2] == 'h' && "<td>"@[2] == 'd' && "<tr>"@[2] == 'r');
    assert("</th>"@.subrange(0, 4)[1] == '/');
    assert("</td>"@.subrange(0, 4)[1] == '/');
    assert("</tr>"@.subrange(0, 4)[1] == '/');
    assert(tag[1] == 't');
}

/// In the opening of the document stands one row tag and no cell tag; in
/// its closing stands none of them.
proof fn lemma_frame(tag: Seq<char>)
    requires
        opens_cell_or_row(tag),
    ensures
        occurrences(table_opening(), tag) == one_if_same(tag, "<tr>"@),
        occurrences(table_closing(), tag) == 0,
        table_opening().len() >= 4,
        forall|at: int|
            table_opening().len() - 4 < at < table_opening().len() ==> table_opening()[at] != '<',
        table_closing().len() > 0 && table_closing()[0] == '<',
{
    lemma_pieces(tag);
    reveal_strlit("<!DOCTYPE html><html><body><table><tr>");
    reveal_strlit("</table></body></html>");
    reveal_strlit("<!DOCTYPE html>");
    reveal_strlit("<html>");
    reveal_strlit("<body>");
    reveal_strlit("<table>");
    reveal_strlit("<th>");
    reveal_strlit("<td>");
    reveal_strlit("<tr>");
    reveal_strlit("</table>");
    reveal_strlit("</body>");
    reveal_strlit("</html>");
    let doctype = "<!DOCTYPE html>"@;
    let html = "<html>"@;
    let body = "<body>"@;
    let table = "<table>"@;
    let row = "<tr>"@;
    assert(table_opening() =~= doctype + html + body + table + row);
    lemma_count_in_markup(doctype, tag);
    lemma_count_in_markup(html, tag);
    lemma_count_in_markup(body, tag);
    lemma_count_in_markup(table, tag);
    assert(doctype.subrange(0, 4)[1] == '!');
    assert(html.subrange(0, 4)[1] == 'h');
    assert(body.subrange(0, 4)[1] == 'b');
    assert(table.subrange(0, 4)[2] == 'a');
    assert(tag[1] == 't' && tag[2] != 'a');
    lemma_bracket_ends_straddle(doctype, html, tag);
    lemma_count_joined(doctype, html, tag);
    lemma_bracket_ends_straddle(doctype + html, body, tag);
    lemma_count_joined(doctype + html, body, tag);
    lemma_bracket_ends_straddle(doctype + html + body, table, tag);
    lemma_count_joined(doctype + html + body, table, tag);
    lemma_bracket_ends_straddle(doctype + html + body + table, row, tag);
    lemma_count_joined(doctype + html + body + table, row, tag);
    let end_table = "</table>"@;
    let end_body = "</body>"@;
    let end_html = "</html>"@;
    assert(table_closing() =~= end_table + end_body + end_html);
    lemma_count_in_markup(end_table, tag);
    lemma_count_in_markup(end_body, tag);
    lemma_count_in_markup(end_html, tag);
    assert(end_table.subrange(0, 4)[1] == '/');
    assert(end_body.subrange(0, 4)[1] == '/');
    assert(end_html.subrange(0, 4)[1] == '/');
    lemma_bracket_ends_straddle(end_table, end_body, tag);
    lemma_count_joined(end_table, end_body, tag);
    lemma_bracket_ends_straddle(end_table + end_body, end_html, tag);
    lemma_count_joined(end_table + end_body, end_html, tag);
}

/// The tags in the markup of the first `upto` cells of a row: one for each
/// cell if the cells are opened by the tag, and those inside the cells.
proof fn lemma_cells_count(
    cells: Seq<Seq<char>>,
    open: Seq<char>,
    close: Seq<char>,
    tag: Seq<char>,
    upto: int,
)
    requires
        opens_cell_or_row(tag),
        one_bracket(open),
        open.len() == 4,
        one_bracket(close),
        occurrences(open, tag) == one_if_same(tag, open),
        occurrences(close, tag) == 0,
        0 <= upto <= cells.len(),
    ensures
        occurrences(cells_markup(cells, open, close, upto), tag) == all_if_same(
            tag,
            open,
            upto as nat,
        ) + tags_in_cells(cells, tag, upto),
    decreases upto,
{
    lemma_pieces(tag);
    if upto > 0 {
        lemma_cells_count(cells, open, close, tag, upto - 1);
        let before = cells_markup(cells, open, close, upto - 1);
        let cell = cells[upto - 1];
        let opened = before + open;
        lemma_bracket_ends_straddle(before, open, tag);
        lemma_count_joined(before, open, tag);
        assert forall|at: int| 0 <= at && opened.len() - tag.len() < at < opened.len() implies opened[at]
            != '<' by {
            assert(opened[at] == open[at - before.len()]);
        }
        lemma_tail_ends_straddle(opened, cell, tag);
        lemma_count_joined(opened, cell, tag);
        lemma_bracket_ends_straddle(opened + cell, close, tag);
        lemma_count_joined(opened + cell, close, tag);
    }
}

/// The tags in the markup of a record: its row tag, one for each field if
/// the tag is that of a data cell, and those inside the fields.
proof fn lemma_row_count(row: Seq<Seq<char>>, tag: Seq<char>)
    requires
        opens_cell_or_row(tag),
    ensures
        occurrences(row_markup(row), tag) == one_if_same(tag, "<tr>"@) + all_if_same(
            tag,
            "<td>"@,
            row.len(),
        ) + tags_in_cells(row, tag, row.len() as int),
        row_markup(row).len() > 0 && row_markup(row)[0] == '<',
{
    lemma_pieces(tag);
    let opening = "<tr>"@;
    let cells = cells_markup(row, "<td>"@, "</td>"@, row.len() as int);
    lemma_cells_count(row, "<td>"@, "</td>"@, tag, row.len() as int);
    lemma_tail_ends_straddle(opening, cells, tag);
    lemma_count_joined(opening, cells, tag);
    lemma_bracket_ends_straddle(opening + cells, "</tr>"@, tag);
    lemma_count_joined(opening + cells, "</tr>"@, tag);
}

/// The tags in the markup of the first `upto` records.
proof fn lemma_rows_count(rows: Seq<Seq<Seq<char>>>, tag: Seq<char>, upto: int)
    requires
        opens_cell_or_row(tag),
        0 <= upto <= rows.len(),
    ensures
        occurrences(rows_markup(rows, upto), tag) == all_if_same(tag, "<tr>"@, upto as nat)
            + all_if_same(tag, "<td>"@, fields_in_rows(rows, upto)) + tags_in_rows(rows, tag, upto),
        rows_markup(rows, upto).len() > 0 ==> rows_markup(rows, upto)[0] == '<',
    decreases upto,
{
    lemma_pieces(tag);
    if upto > 0 {
        lemma_rows_count(rows, tag, upto - 1);
        let before = rows_markup(rows, upto - 1);
        let row = row_markup(rows[upto - 1]);
        lemma_row_count(rows[upto - 1], tag);
        lemma_bracket_ends_straddle(before, row, tag);
        lemma_count_joined(before, row, tag);
    }
}

/// Number of tags that the converter writes for a header row and records:
/// a header cell for each column, a data cell for each field, a row for the
/// header and one for each record.
pub open spec fn tags_written(headers: Seq<Seq<char>>, rows: Seq<Seq<Seq<char>>>, tag: Seq<char>) -> nat {
    if tag == "<th>"@ {
        headers.len()
    } else if tag == "<td>"@ {
        fields_in_rows(rows, rows.len() as int)
    } else {
        1 + rows.len()
    }
}

/// Number of places inside the fields, those of the header row included, at
/// which a tag stands.
pub open spec fn tags_in_fields(headers: Seq<Seq<char>>, rows: Seq<Seq<Seq<char>>>, tag: Seq<char>) -> nat {
    tags_in_cells(headers, tag, headers.len() as int) + tags_in_rows(rows, tag, rows.len() as int)
}

/// In the table stand the tags that the converter writes, one `<th>` for
/// each column, one `<tr>` for the header row and one for each record, one
/// `<td>` for each field, and besides them only those inside the fields,
/// which are written as they are. So where no field holds a tag, the header
/// cells of the table are as many as the columns, and its data rows as
/// many as the records.
pub proof fn lemma_tags_counted(headers: Seq<Seq<char>>, rows: Seq<Seq<Seq<char>>>, tag: Seq<char>)
    requires
        opens_cell_or_row(tag),
    ensures
        occurrences(html_table(headers, rows), tag) == tags_written(headers, rows, tag)
            + tags_in_fields(headers, rows, tag),
{
    lemma_pieces(tag);
    lemma_frame(tag);
    reveal_strlit("<th>");
    reveal_strlit("<td>");
    reveal_strlit("<tr>");
    assert("<th>"@[2] == 'h' && "<td>"@[2] == 'd' && "<tr>"@[2] == 'r');
    let opening = table_opening();
    let head = header_markup(headers);
    let body = rows_markup(rows, rows.len() as int);
    lemma_cells_count(headers, "<th>"@, "</th>"@, tag, headers.len() as int);
    lemma_rows_count(rows, tag, rows.len() as int);
    lemma_tail_ends_straddle(opening, head, tag);
    lemma_count_joined(opening, head, tag);
    lemma_bracket_ends_straddle(opening + head, "</tr>"@, tag);
    lemma_count_joined(opening + head, "</tr>"@, tag);
    lemma_bracket_ends_straddle(opening + head + "</tr>"@, body, tag);
    lemma_count_joined(opening + head + "</tr>"@, body, tag);
    lemma_bracket_ends_straddle(opening + head + "</tr>"@ + body, table_closing(), tag);
    lemma_count_joined(opening + head + "</tr>"@ + body, table_closing(), tag);
}

/// The table of any header row and any records, none included, is not
/// empty: it has its opening and its closing at least.
pub proof fn lemma_table_not_empty(headers: Seq<Seq<char>>, rows: Seq<Seq<Seq<char>>>)
    ensures
        html_table(headers, rows).len() >= table_opening().len() + table_closing().len() > 0,
{
    reveal_strlit("<!DOCTYPE html><html><body><table><tr>");
}

/// Cell `k` of a row stands in the markup of the first `upto` cells, with
/// its tags around it, behind the markup of the cells before it.
proof fn lemma_cell_in_row(
    cells: Seq<Seq<char>>,
    open: Seq<char>,
    close: Seq<char>,
    k: int,
    upto: int,
)
    requires
        0 <= k < upto <= cells.len(),
    ensures
        stands_at(
            cells_markup(cells, open, close, upto),
            open + cells[k] + close,
            cells_markup(cells, open, close, k).len() as int,
        ),
    decreases upto,
{
    let before = cells_markup(cells, open, close, upto - 1);
    let last = open + cells[upto - 1] + close;
    let empty = Seq::<char>::empty();
    assert(cells_markup(cells, open, close, upto) =~= before + last);
    if k == upto - 1 {
        assert(stands_at(last, last, 0)) by {
            assert(last.subrange(0, last.len() as int) =~= last);
        }
        lemma_stands_inside(before, last, empty, last, 0);
        assert(before + last + empty =~= before + last);
    } else {
        lemma_cell_in_row(cells, open, close, k, upto - 1);
        lemma_stands_inside(
            empty,
            before,
            last,
            open + cells[k] + close,
            cells_markup(cells, open, close, k).len() as int,
        );
        assert(empty + before + last =~= before + last);
    }
}

/// Record `i` stands in the markup of the first `upto` records, behind the
/// markup of the records before it.
proof fn lemma_row_in_rows(rows: Seq<Seq<Seq<char>>>, i: int, upto: int)
    requires
        0 <= i < upto <= rows.len(),
    ensures
        stands_at(rows_markup(rows, upto), row_markup(rows[i]), rows_markup(rows, i).len() as int),
    decreases upto,
{
    let before = rows_markup(rows, upto - 1);
    let last = row_markup(rows[upto - 1]);
    let empty = Seq::<char>::empty();
    if i == upto - 1 {
        assert(stands_at(last, last, 0)) by {
            assert(last.subrange(0, last.len() as int) =~= last);
        }
        lemma_stands_inside(before, last, empty, last, 0);
        assert(before + last + empty =~= before + last);
    } else {
        lemma_row_in_rows(rows, i, upto - 1);
        lemma_stands_inside(empty, before, last, row_markup(rows[i]), rows_markup(rows, i).len() as int);
        assert(empty + before + last =~= before + last);
    }
}

/// The place in the table at which header cell `k` begins: behind the
/// opening and the cells before it.
pub open spec fn header_cell_place(headers: Seq<Seq<char>>, k: int) -> int {
    (table_opening().len() + cells_markup(headers, "<th>"@, "</th>"@, k).len()) as int
}

/// The place in the table at which record `i` begins: behind the header row
/// and the records before it.
pub open spec fn row_place(headers: Seq<Seq<char>>, rows: Seq<Seq<Seq<char>>>, i: int) -> int {
    (table_opening().len() + header_markup(headers).len() + "</tr>"@.len() + rows_markup(
        rows,
        i,
    ).len()) as int
}

/// The place in the table at which field `j` of record `i` begins: behind
/// the row tag of the record and the fields before it.
pub open spec fn field_place(
    headers: Seq<Seq<char>>,
    rows: Seq<Seq<Seq<char>>>,
    i: int,
    j: int,
) -> int {
    row_place(headers, rows, i) + "<tr>"@.len() + cells_markup(rows[i], "<td>"@, "</td>"@, j).len()
}

/// The header cells stand in the table in the order of the columns: cell
/// `k` holds the name of column `k`, and the next cell begins where it ends.
pub proof fn lemma_header_in_place(headers: Seq<Seq<char>>, rows: Seq<Seq<Seq<char>>>, k: int)
    requires
        0 <= k < headers.len(),
    ensures
        stands_at(
            html_table(headers, rows),
            "<th>"@ + headers[k] + "</th>"@,
            header_cell_place(headers, k),
        ),
        header_cell_place(headers, k + 1) == header_cell_place(headers, k) + ("<th>"@
            + headers[k] + "</th>"@).len(),
{
    let head = header_markup(headers);
    let cell = "<th>"@ + headers[k] + "</th>"@;
    let behind = "</tr>"@ + rows_markup(rows, rows.len() as int) + table_closing();
    lemma_cell_in_row(headers, "<th>"@, "</th>"@, k, headers.len() as int);
    lemma_stands_inside(
        table_opening(),
        head,
        behind,
        cell,
        cells_markup(headers, "<th>"@, "</th>"@, k).len() as int,
    );
    assert(table_opening() + head + behind =~= html_table(headers, rows));
}

/// The records stand in the table in their order: row `i` is the markup of
/// record `i`, and the next row begins where it ends.
pub proof fn lemma_row_in_place(headers: Seq<Seq<char>>, rows: Seq<Seq<Seq<char>>>, i: int)
    requires
        0 <= i < rows.len(),
    ensures
        stands_at(html_table(headers, rows), row_markup(rows[i]), row_place(headers, rows, i)),
        row_place(headers, rows, i + 1) == row_place(headers, rows, i) + row_markup(rows[i]).len(),
{
    let before = table_opening() + header_markup(headers) + "</tr>"@;
    let body = rows_markup(rows, rows.len() as int);
    lemma_row_in_rows(rows, i, rows.len() as int);
    lemma_stands_inside(
        before,
        body,
        table_closing(),
        row_markup(rows[i]),
        rows_markup(rows, i).len() as int,
    );
}

/// The fields of a record stand in its row in their order: data cell `j`
/// of row `i` holds field `j` of record `i`, and the next cell begins where
/// it ends.
pub proof fn lemma_field_in_place(
    headers: Seq<Seq<char>>,
    rows: Seq<Seq<Seq<char>>>,
    i: int,
    j: int,
)
    requires
        0 <= i < rows.len(),
        0 <= j < rows[i].len(),
    ensures
        stands_at(
            html_table(headers, rows),
            "<td>"@ + rows[i][j] + "</td>"@,
            field_place(headers, rows, i, j),
        ),
        field_place(headers, rows, i, j + 1) == field_place(headers, rows, i, j) + ("<td>"@
            + rows[i][j] + "</td>"@).len(),
{
    let row = rows[i];
    let cell = "<td>"@ + row[j] + "</td>"@;
    let cells = cells_markup(row, "<td>"@, "</td>"@, row.len() as int);
    let within = cells_markup(row, "<td>"@, "</td>"@, j).len() as int;
    lemma_cell_in_row(row, "<td>"@, "</td>"@, j, row.len() as int);
    lemma_stands_inside("<tr>"@, cells, "</tr>"@, cell, within);
    lemma_row_in_place(headers, rows, i);
    let table = html_table(headers, rows);
    let at = row_place(headers, rows, i);
    let inner = "<tr>"@.len() + within;
    assert(table.subrange(at + inner, at + inner + cell.len()) =~= row_markup(row).subrange(
        inner,
        inner + cell.len(),
    )) by {
        assert(table.subrange(at, at + row_markup(row).len()) == row_markup(row));
    }
}

} // verus!
