//! The rendering of result rows as a table, as JSON or as a list. Each
//! function gives the text to print; none prints.

use crate::json::{json_pretty, json_pretty_text};
use crate::text::{
    chars_of, decimal, decimal_text, join, joined, pieces, same_text, split_commas, stripped, trim,
    CharClass,
};
use vstd::prelude::*;
use vstd::utf8::encode_utf8;

verus! {

/// Why rendering failed.
#[derive(Debug)]
pub enum OutputError {
    /// The JSON serializer refused the rows.
    Json(serde_json::Error),
}

/// The names under which the columns of a result are shown: the pieces of
/// the list of fields between its commas, each without the white space at its
/// two ends.
pub open spec fn shown_names(fields: Seq<char>) -> Seq<Seq<char>> {
    pieces(fields).map_values(|piece: Seq<char>| stripped(piece, CharClass::Space))
}

/// The name of column `i`: the `i`-th of `names` if there is one, else `col`
/// and the number `i`.
pub open spec fn column_name(names: Seq<Seq<char>>, i: int) -> Seq<char> {
    if 0 <= i < names.len() {
        names[i]
    } else {
        "col"@ + decimal(i as nat)
    }
}

/// The length of `s` in bytes of UTF-8.
pub open spec fn utf8_len(s: Seq<char>) -> nat {
    encode_utf8(s).len()
}

/// `n` times the character `c`.
pub open spec fn repeated(c: char, n: nat) -> Seq<char> {
    Seq::new(n, |i: int| c)
}

/// `s` with spaces behind it up to `width` characters; unchanged if it has
/// that many.
pub open spec fn padded(s: Seq<char>, width: nat) -> Seq<char> {
    if s.len() < width {
        s + repeated(' ', (width - s.len()) as nat)
    } else {
        s
    }
}

/// The number of columns of a table: the number of cells of the first row.
pub open spec fn column_count(rows: Seq<Seq<Seq<char>>>) -> nat {
    if rows.len() == 0 {
        0
    } else {
        rows[0].len()
    }
}

/// The greatest length in bytes of a cell in column `col` of the first
/// `upto` rows; rows without that column do not count.
pub open spec fn widest(rows: Seq<Seq<Seq<char>>>, col: int, upto: int) -> nat
    decreases upto,
{
    if upto <= 0 {
        0
    } else {
        let before = widest(rows, col, upto - 1);
        let row = rows[upto - 1];
        let here = if 0 <= col < row.len() {
            utf8_len(row[col])
        } else {
            0
        };
        if here > before {
            here
        } else {
            before
        }
    }
}

/// The width of column `col`: the greatest of the length of its name, the
/// lengths of its cells, and 10. Lengths are in bytes.
pub open spec fn column_width(rows: Seq<Seq<Seq<char>>>, names: Seq<Seq<char>>, col: int) -> nat {
    let name = utf8_len(column_name(names, col));
    let cells = widest(rows, col, rows.len() as int);
    let most = if name > cells {
        name
    } else {
        cells
    };
    if most > 10 {
        most
    } else {
        10
    }
}

/// The cells of the header: the name of each column, padded to its width.
pub open spec fn header_cells(rows: Seq<Seq<Seq<char>>>, names: Seq<Seq<char>>) -> Seq<Seq<char>> {
    Seq::new(
        column_count(rows),
        |i: int| padded(column_name(names, i), column_width(rows, names, i)),
    )
}

/// The cells of the line under the header: for each column as many dashes as
/// it is wide.
pub open spec fn rule_cells(rows: Seq<Seq<Seq<char>>>, names: Seq<Seq<char>>) -> Seq<Seq<char>> {
    Seq::new(column_count(rows), |i: int| repeated('-', column_width(rows, names, i)))
}

/// The cells of one line of the table: each cell of `row` padded to the
/// width of its column; a cell behind the last column stands as it is.
pub open spec fn row_cells(
    rows: Seq<Seq<Seq<char>>>,
    names: Seq<Seq<char>>,
    row: Seq<Seq<char>>,
) -> Seq<Seq<char>> {
    Seq::new(
        row.len(),
        |i: int|
            if i < column_count(rows) {
                padded(row[i], column_width(rows, names, i))
            } else {
                row[i]
            },
    )
}

/// The lines of the first `upto` rows of the table.
pub open spec fn table_lines(rows: Seq<Seq<Seq<char>>>, names: Seq<Seq<char>>, upto: int) -> Seq<
    char,
>
    decreases upto,
{
    if upto <= 0 {
        Seq::empty()
    } else {
        table_lines(rows, names, upto - 1) + joined(row_cells(rows, names, rows[upto - 1]), " | "@)
            + "\n"@
    }
}

/// The table of `rows`: a header, a line of dashes, and one line for each
/// row.
pub open spec fn table_text(rows: Seq<Seq<Seq<char>>>, names: Seq<Seq<char>>) -> Seq<char> {
    joined(header_cells(rows, names), " | "@) + "\n"@ + joined(rule_cells(rows, names), "-+-"@)
        + "\n"@ + table_lines(rows, names, rows.len() as int)
}

/// The lines `name: value` of the first `upto` cells of `row`.
pub open spec fn list_entries(row: Seq<Seq<char>>, names: Seq<Seq<char>>, upto: int) -> Seq<char>
    decreases upto,
{
    if upto <= 0 {
        Seq::empty()
    } else {
        list_entries(row, names, upto - 1) + column_name(names, upto - 1) + ": "@ + row[upto - 1]
            + "\n"@
    }
}

/// The blocks of the first `upto` rows: the entries of each row and a line
/// `---` behind them.
pub open spec fn list_blocks(rows: Seq<Seq<Seq<char>>>, names: Seq<Seq<char>>, upto: int) -> Seq<
    char,
>
    decreases upto,
{
    if upto <= 0 {
        Seq::empty()
    } else {
        list_blocks(rows, names, upto - 1) + list_entries(
            rows[upto - 1],
            names,
            rows[upto - 1].len() as int,
        ) + "---\n"@
    }
}

/// The list of `rows`.
pub open spec fn list_text(rows: Seq<Seq<Seq<char>>>, names: Seq<Seq<char>>) -> Seq<char> {
    list_blocks(rows, names, rows.len() as int)
}

/// The keys and values of the JSON object for `row`, in the order of its
/// cells.
pub open spec fn json_object(row: Seq<Seq<char>>, names: Seq<Seq<char>>) -> Seq<
    (Seq<char>, Seq<char>),
> {
    Seq::new(row.len(), |i: int| (column_name(names, i), row[i]))
}

/// The JSON objects for `rows`.
pub open spec fn json_objects(rows: Seq<Seq<Seq<char>>>, names: Seq<Seq<char>>) -> Seq<
    Seq<(Seq<char>, Seq<char>)>,
> {
    Seq::new(rows.len(), |r: int| json_object(rows[r], names))
}

/// Whether `format` asks for JSON.
pub open spec fn wants_json(format: Seq<char>) -> bool {
    format == "json"@ || format == "Json"@
}

/// Whether `format` asks for a list.
pub open spec fn wants_list(format: Seq<char>) -> bool {
    format == "list"@ || format == "List"@
}

/// What is printed when there are no rows.
pub open spec fn no_results() -> Seq<char> {
    "No results found.\n"@
}

/// A text has at least as many bytes as characters.
pub proof fn lemma_utf8_len_at_least_chars(s: Seq<char>)
    ensures
        utf8_len(s) >= s.len(),
    decreases s.len(),
{
    if s.len() > 0 {
        lemma_utf8_len_at_least_chars(s.drop_first());
    }
}

/// A column is at least as wide as each of its cells is long.
proof fn lemma_widest_covers(rows: Seq<Seq<Seq<char>>>, col: int, upto: int, r: int)
    requires
        0 <= r < upto <= rows.len(),
        0 <= col < rows[r].len(),
    ensures
        widest(rows, col, upto) >= utf8_len(rows[r][col]),
    decreases upto,
{
    if r < upto - 1 {
        lemma_widest_covers(rows, col, upto - 1, r);
    }
}

/// The columns of a table line up: in each column the header cell, the
/// dashes under it and the cell of every row have as many characters as the
/// column is wide, and that is at least 10.
pub proof fn lemma_table_columns_line_up(
    rows: Seq<Seq<Seq<char>>>,
    names: Seq<Seq<char>>,
    r: int,
    col: int,
)
    requires
        0 <= r < rows.len(),
        0 <= col < column_count(rows),
        col < rows[r].len(),
    ensures
        column_width(rows, names, col) >= 10,
        header_cells(rows, names)[col].len() == column_width(rows, names, col),
        rule_cells(rows, names)[col].len() == column_width(rows, names, col),
        row_cells(rows, names, rows[r])[col].len() == column_width(rows, names, col),
{
    lemma_utf8_len_at_least_chars(column_name(names, col));
    lemma_utf8_len_at_least_chars(rows[r][col]);
    lemma_widest_covers(rows, col, rows.len() as int, r);
}

/// The names under which the columns of a result are shown.
pub fn field_names(fields: &str) -> (names: Vec<String>)
    ensures
        names.deep_view() == shown_names(fields@),
{
    let parts = split_commas(fields);
    let mut names: Vec<String> = Vec::new();
    let mut i: usize = 0;
    while i < parts.len()
        invariant
            i <= parts.len(),
            names.len() == i,
            parts.deep_view() == pieces(fields@),
            forall|j: int|
                0 <= j < i ==> names@[j]@ == stripped(pieces(fields@)[j], CharClass::Space),
        decreases parts.len() - i,
    {
        names.push(trim(parts[i].as_str()));
        i += 1;
    }
    names
}

/// The name of column `i`.
fn name_of(field_names: &[String], i: usize) -> (name: String)
    ensures
        name@ == column_name(field_names.deep_view(), i as int),
{
    if i < field_names.len() {
        field_names[i].clone()
    } else {
        let mut name = "col".to_owned();
        name.append(decimal_text(i as u64).as_str());
        name
    }
}

/// The length of `text` in bytes.
fn byte_len(text: &str) -> (n: usize)
    ensures
        n == utf8_len(text@),
{
    text.as_bytes().len()
}

/// `n` times the character `c`.
fn repeat_char(c: char, n: usize) -> (s: String)
    ensures
        s@ == repeated(c, n as nat),
{
    let mut s = String::new();
    let mut i: usize = 0;
    while i < n
        invariant
            i <= n,
            s@ == repeated(c, i as nat),
        decreases n - i,
    {
        s.push(c);
        i += 1;
    }
    s
}

/// `text` with spaces behind it up to `width` characters.
fn pad(text: &str, width: usize) -> (s: String)
    ensures
        s@ == padded(text@, width as nat),
{
    let count = chars_of(text).len();
    let mut s = text.to_owned();
    if count < width {
        s.append(repeat_char(' ', width - count).as_str());
    }
    s
}

/// The width of column `col`.
fn width_of(results: &[Vec<String>], field_names: &[String], col: usize) -> (width: usize)
    ensures
        width == column_width(results.deep_view(), field_names.deep_view(), col as int),
{
    let ghost rows = results.deep_view();
    let mut width = byte_len(name_of(field_names, col).as_str());
    let mut cells: usize = 0;
    let mut r: usize = 0;
    while r < results.len()
        invariant
            r <= results.len(),
            rows == results.deep_view(),
            cells == widest(rows, col as int, r as int),
        decreases results.len() - r,
    {
        let row = &results[r];
        if col < row.len() {
            let here = byte_len(row[col].as_str());
            if here > cells {
                cells = here;
            }
        }
        r += 1;
    }
    if cells > width {
        width = cells;
    }
    if width > 10 {
        width
    } else {
        10
    }
}

/// Renders `results` as a table with one column for each cell of the first
/// row. Lengths are measured in bytes, padding in characters. It never fails.
pub fn output_table(results: &[Vec<String>], field_names: &[String]) -> (result: Result<
    String,
    OutputError,
>)
    ensures
        result matches Ok(text) && text@ == table_text(
            results.deep_view(),
            field_names.deep_view(),
        ),
{
    let ghost rows = results.deep_view();
    let ghost names = field_names.deep_view();
    let col_count = if results.len() > 0 {
        results[0].len()
    } else {
        0
    };
    let mut widths: Vec<usize> = Vec::new();
    let mut header: Vec<String> = Vec::new();
    let mut rule: Vec<String> = Vec::new();
    let mut i: usize = 0;
    while i < col_count
        invariant
            i <= col_count,
            col_count == column_count(rows),
            rows == results.deep_view(),
            names == field_names.deep_view(),
            widths.len() == i,
            header.len() == i,
            rule.len() == i,
            forall|j: int| 0 <= j < i ==> widths@[j] == column_width(rows, names, j),
            forall|j: int| 0 <= j < i ==> header@[j]@ == header_cells(rows, names)[j],
            forall|j: int| 0 <= j < i ==> rule@[j]@ == rule_cells(rows, names)[j],
        decreases col_count - i,
    {
        let width = width_of(results, field_names, i);
        header.push(pad(name_of(field_names, i).as_str(), width));
        rule.push(repeat_char('-', width));
        widths.push(width);
        i += 1;
    }
    assert(header.deep_view() =~= header_cells(rows, names));
    assert(rule.deep_view() =~= rule_cells(rows, names));
    let mut text = join(&header, " | ");
    text.append("\n");
    text.append(join(&rule, "-+-").as_str());
    text.append("\n");
    let ghost head = text@;
    let mut r: usize = 0;
    while r < results.len()
        invariant
            r <= results.len(),
            col_count == column_count(rows),
            rows == results.deep_view(),
            names == field_names.deep_view(),
            widths.len() == col_count,
            forall|j: int| 0 <= j < col_count ==> widths@[j] == column_width(rows, names, j),
            text@ == head + table_lines(rows, names, r as int),
        decreases results.len() - r,
    {
        let row = &results[r];
        let mut cells: Vec<String> = Vec::new();
        let mut c: usize = 0;
        while c < row.len()
            invariant
                c <= row.len(),
                cells.len() == c,
                col_count == column_count(rows),
                widths.len() == col_count,
                forall|j: int| 0 <= j < col_count ==> widths@[j] == column_width(rows, names, j),
                forall|j: int|
                    0 <= j < c ==> cells@[j]@ == row_cells(rows, names, row.deep_view())[j],
            decreases row.len() - c,
        {
            if c < widths.len() {
                cells.push(pad(row[c].as_str(), widths[c]));
            } else {
                cells.push(row[c].clone());
            }
            c += 1;
        }
        assert(cells.deep_view() =~= row_cells(rows, names, rows[r as int]));
        text.append(join(&cells, " | ").as_str());
        text.append("\n");
        r += 1;
    }
    Ok(text)
}

/// Renders `results` as a list: a line `name: value` for each cell, and a
/// line `---` behind each row. It never fails.
pub fn output_list(results: &[Vec<String>], field_names: &[String]) -> (result: Result<
    String,
    OutputError,
>)
    ensures
        result matches Ok(text) && text@ == list_text(results.deep_view(), field_names.deep_view()),
{
    let ghost rows = results.deep_view();
    let ghost names = field_names.deep_view();
    let mut text = String::new();
    let mut r: usize = 0;
    while r < results.len()
        invariant
            r <= results.len(),
            rows == results.deep_view(),
            names == field_names.deep_view(),
            text@ == list_blocks(rows, names, r as int),
        decreases results.len() - r,
    {
        let row = &results[r];
        let ghost done = text@;
        let mut c: usize = 0;
        while c < row.len()
            invariant
                c <= row.len(),
                names == field_names.deep_view(),
                text@ == done + list_entries(row.deep_view(), names, c as int),
            decreases row.len() - c,
        {
            text.append(name_of(field_names, c).as_str());
            text.append(": ");
            text.append(row[c].as_str());
            text.append("\n");
            c += 1;
        }
        text.append("---\n");
        r += 1;
    }
    Ok(text)
}

/// The keys and values of the JSON objects for `results`.
pub fn json_rows(results: &[Vec<String>], field_names: &[String]) -> (objects: Vec<
    Vec<(String, String)>,
>)
    ensures
        objects.deep_view() == json_objects(results.deep_view(), field_names.deep_view()),
{
    let ghost rows = results.deep_view();
    let ghost names = field_names.deep_view();
    let mut objects: Vec<Vec<(String, String)>> = Vec::new();
    let mut r: usize = 0;
    while r < results.len()
        invariant
            r <= results.len(),
            objects.len() == r,
            rows == results.deep_view(),
            names == field_names.deep_view(),
            forall|k: int| 0 <= k < r ==> objects@[k].deep_view() == json_object(rows[k], names),
        decreases results.len() - r,
    {
        let row = &results[r];
        let mut pairs: Vec<(String, String)> = Vec::new();
        let mut c: usize = 0;
        while c < row.len()
            invariant
                c <= row.len(),
                pairs.len() == c,
                names == field_names.deep_view(),
                forall|j: int|
                    0 <= j < c ==> pairs@[j].deep_view() == json_object(row.deep_view(), names)[j],
            decreases row.len() - c,
        {
            pairs.push((name_of(field_names, c), row[c].clone()));
            c += 1;
        }
        objects.push(pairs);
        r += 1;
    }
    objects
}

/// What rendering as JSON gives for an outcome of the serializer: its text
/// and a line end, or its error.
pub fn finish_json(outcome: Result<String, serde_json::Error>) -> (result: Result<
    String,
    OutputError,
>)
    ensures
        match outcome {
            Ok(text) => result matches Ok(line) && line@ == text@ + "\n"@,
            Err(error) => result matches Err(OutputError::Json(inner)) && inner == error,
        },
{
    match outcome {
        Ok(mut text) => {
            text.append("\n");
            Ok(text)
        },
        Err(error) => Err(OutputError::Json(error)),
    }
}

/// The JSON of `rows`: the text of the serializer for the objects of the
/// rows, and a line end.
pub open spec fn json_output(rows: Seq<Seq<Seq<char>>>, names: Seq<Seq<char>>) -> Seq<char> {
    json_pretty_text(json_objects(rows, names)) + "\n"@
}

/// Renders `results` as JSON: an array with one object for each row, whose
/// keys are the names of the columns and whose values are the cells as
/// strings. It never fails.
pub fn output_json(results: &[Vec<String>], field_names: &[String]) -> (result: Result<
    String,
    OutputError,
>)
    ensures
        result matches Ok(text) && text@ == json_output(
            results.deep_view(),
            field_names.deep_view(),
        ),
{
    let objects = json_rows(results, field_names);
    finish_json(json_pretty(&objects))
}

/// Renders `results` in the way that `format` names: `json` or `Json`, `list`
/// or `List`, and a table for every other word. Without rows the text says
/// so, whatever the format. It never fails.
pub fn output_results(results: &[Vec<String>], format: &str, field_names: &[String]) -> (result:
    Result<String, OutputError>)
    ensures
        results@.len() == 0 ==> (result matches Ok(text) && text@ == no_results()),
        results@.len() > 0 && wants_json(format@) ==> (result matches Ok(text) && text@
            == json_output(results.deep_view(), field_names.deep_view())),
        results@.len() > 0 && !wants_json(format@) && wants_list(format@) ==> (result matches Ok(
            text,
        ) && text@ == list_text(results.deep_view(), field_names.deep_view())),
        results@.len() > 0 && !wants_json(format@) && !wants_list(format@) ==> (result matches Ok(
            text,
        ) && text@ == table_text(results.deep_view(), field_names.deep_view())),
{
    if results.len() == 0 {
        return Ok("No results found.\n".to_owned());
    }
    if same_text(format, "json") || same_text(format, "Json") {
        output_json(results, field_names)
    } else if same_text(format, "list") || same_text(format, "List") {
        output_list(results, field_names)
    } else {
        output_table(results, field_names)
    }
}

} // verus!
