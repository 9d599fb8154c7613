//! Tables of data read from CSV files: a Markdown preview of the table for
//! the classifier, and the table assembled with what the classifier said of
//! its columns.
use vstd::prelude::*;
use crate::text::views;
use super::{Column, Data};

verus! {

/// Reads a CSV file into a table of data.
pub struct CsvExtractor;

/// What the data classifier says of a table: its title, its description and
/// a description of each column.
#[derive(Debug, Clone)]
pub struct DataClassifierOuput {
    pub title: String,
    pub description: String,
    pub columns: Vec<ClassifierColumn>,
}

/// What the data classifier says of one column.
#[derive(Debug, Clone)]
pub struct ClassifierColumn {
    pub title: String,
    pub description: String,
}

/// How many rows of data the preview shows.
pub const PREVIEW_ROWS: usize = 5;

/// The classifier's columns as (title, description) pairs.
pub open spec fn classifier_views(v: Seq<ClassifierColumn>) -> Seq<(Seq<char>, Seq<char>)> {
    v.map_values(|c: ClassifierColumn| (c.title@, c.description@))
}

/// The description of the first column titled `name`, or nothing.
pub open spec fn description_for(cols: Seq<(Seq<char>, Seq<char>)>, name: Seq<char>) -> Seq<char>
    decreases cols.len(),
{
    if cols.len() == 0 {
        seq![]
    } else if cols[0].0 == name {
        cols[0].1
    } else {
        description_for(cols.drop_first(), name)
    }
}

/// Each cell followed by ` | `.
pub open spec fn cells_line(cells: Seq<Seq<char>>) -> Seq<char>
    decreases cells.len(),
{
    if cells.len() == 0 {
        seq![]
    } else {
        cells_line(cells.drop_last()) + cells.last() + " | "@
    }
}

/// A row of a Markdown table.
pub open spec fn table_row(cells: Seq<Seq<char>>) -> Seq<char> {
    "| "@ + cells_line(cells) + "\n"@
}

/// The separator row under the header of a table with `n` columns.
pub open spec fn separator_cells(n: nat) -> Seq<Seq<char>> {
    Seq::new(n, |j: int| "---"@)
}

/// The value shown for row `i` of a column: `null` past its end.
pub open spec fn preview_cell(column: Seq<Seq<char>>, i: int) -> Seq<char> {
    if 0 <= i < column.len() {
        column[i]
    } else {
        "null"@
    }
}

/// Row `i` of the table, across the columns.
pub open spec fn preview_row(columns: Seq<Seq<Seq<char>>>, i: int) -> Seq<Seq<char>> {
    Seq::new(columns.len(), |j: int| preview_cell(columns[j], i))
}

/// The first `k` rows of the table.
pub open spec fn preview_rows(columns: Seq<Seq<Seq<char>>>, k: nat) -> Seq<char>
    decreases k,
{
    if k == 0 {
        seq![]
    } else {
        preview_rows(columns, (k - 1) as nat) + table_row(preview_row(columns, k - 1))
    }
}

/// The Markdown preview of a table: the header, the separator, and the first
/// rows of data.
pub open spec fn markdown_preview(names: Seq<Seq<char>>, columns: Seq<Seq<Seq<char>>>) -> Seq<char> {
    table_row(names) + table_row(separator_cells(names.len())) + preview_rows(columns, PREVIEW_ROWS as nat)
}

/// The columns' values, as plain values.
pub open spec fn column_views(columns: Seq<Vec<String>>) -> Seq<Seq<Seq<char>>> {
    columns.map_values(|c: Vec<String>| views(c@))
}

/// A cell's value, empty when it has none.
pub open spec fn value_or_empty(v: Option<String>) -> Seq<char> {
    match v {
        Some(s) => s@,
        None => seq![],
    }
}

/// A row of a Markdown table.
pub fn table_row_of(cells: &Vec<String>) -> (r: String)
    ensures
        r@ == table_row(views(cells@)),
{
    let mut line = String::new();
    let mut j: usize = 0;
    while j < cells.len()
        invariant
            j <= cells.len(),
            line@ == cells_line(views(cells@).take(j as int)),
        decreases cells.len() - j,
    {
        assert(views(cells@).take(j + 1).drop_last() == views(cells@).take(j as int));
        line.append(cells[j].as_str());
        line.append(" | ");
        j = j + 1;
    }
    assert(views(cells@).take(cells.len() as int) == views(cells@));
    let mut r = String::from_str("| ");
    r.append(line.as_str());
    r.append("\n");
    r
}

/// The Markdown preview of a table with the given column names and column
/// values, as the data classifier is shown it.
pub fn markdown_table(names: &Vec<String>, columns: &Vec<Vec<String>>) -> (r: String)
    ensures
        r@ == markdown_preview(views(names@), column_views(columns@)),
{
    let mut r = table_row_of(names);
    let mut sep: Vec<String> = Vec::new();
    let mut j: usize = 0;
    while j < names.len()
        invariant
            j <= names.len(),
            views(sep@) == separator_cells(j as nat),
        decreases names.len() - j,
    {
        let ghost before = sep@;
        let dash = String::from_str("---");
        assert(dash@ == "---"@);
        sep.push(dash);
        assert(views(sep@) =~= views(before).push(dash@));
        assert(views(sep@) =~= separator_cells((j + 1) as nat));
        j = j + 1;
    }
    let sep_row = table_row_of(&sep);
    r.append(sep_row.as_str());
    let ghost head = r@;
    let mut body = String::new();
    let mut i: usize = 0;
    while i < PREVIEW_ROWS
        invariant
            i <= PREVIEW_ROWS,
            body@ == preview_rows(column_views(columns@), i as nat),
        decreases PREVIEW_ROWS - i,
    {
        let mut row: Vec<String> = Vec::new();
        let mut c: usize = 0;
        while c < columns.len()
            invariant
                c <= columns.len(),
                i < PREVIEW_ROWS,
                views(row@) == preview_row(column_views(columns@), i as int).take(c as int),
            decreases columns.len() - c,
        {
            let ghost before = row@;
            let ghost cols = column_views(columns@);
            assert(cols[c as int] == views(columns@[c as int]@));
            let cell = if i < columns[c].len() {
                assert(cols[c as int][i as int] == columns@[c as int]@[i as int]@);
                columns[c][i].clone()
            } else {
                String::from_str("null")
            };
            assert(cell@ == preview_cell(cols[c as int], i as int));
            row.push(cell);
            assert(views(row@) =~= views(before).push(cell@));
            assert(views(row@) =~= preview_row(column_views(columns@), i as int).take(c + 1));
            c = c + 1;
        }
        assert(preview_row(column_views(columns@), i as int).take(columns.len() as int)
            == preview_row(column_views(columns@), i as int));
        let line = table_row_of(&row);
        body.append(line.as_str());
        i = i + 1;
    }
    r.append(body.as_str());
    r
}

/// The description the classifier gave the first column titled `name`, or
/// an empty one.
pub fn column_description(columns: &Vec<ClassifierColumn>, name: &str) -> (r: String)
    ensures
        r@ == description_for(classifier_views(columns@), name@),
{
    let ghost all = classifier_views(columns@);
    let mut k: usize = 0;
    assert(all.skip(0) == all);
    while k < columns.len()
        invariant
            k <= columns.len(),
            all == classifier_views(columns@),
            description_for(all, name@) == description_for(all.skip(k as int), name@),
        decreases columns.len() - k,
    {
        assert(all.skip(k as int)[0] == (columns@[k as int].title@, columns@[k as int].description@));
        assert(all.skip(k as int).drop_first() == all.skip(k + 1));
        if crate::text::str_eq(columns[k].title.as_str(), name) {
            return columns[k].description.clone();
        }
        k = k + 1;
    }
    assert(all.skip(k as int).len() == 0);
    String::new()
}

/// The table of data: the classifier's title and description, and each
/// column with its name, the classifier's description of it and its values,
/// an empty one where a cell has none.
pub fn data_from_columns(
    output: DataClassifierOuput,
    names: Vec<String>,
    values: Vec<Vec<Option<String>>>,
) -> (d: Data)
    requires
        names.len() == values.len(),
    ensures
        d.title@ == output.title@,
        d.description@ == output.description@,
        d.columns.len() == names.len(),
        forall|j: int|
            0 <= j < names.len() ==> {
                &&& (#[trigger] d.columns@[j]).name@ == names@[j]@
                &&& d.columns@[j].description@ == description_for(
                    classifier_views(output.columns@),
                    names@[j]@,
                )
                &&& views(d.columns@[j].values@) == values@[j]@.map_values(
                    |v: Option<String>| value_or_empty(v),
                )
            },
{
    let mut columns: Vec<Column> = Vec::new();
    let mut j: usize = 0;
    while j < names.len()
        invariant
            j <= names.len() == values.len(),
            columns.len() == j,
            forall|m: int|
                0 <= m < j ==> {
                    &&& (#[trigger] columns@[m]).name@ == names@[m]@
                    &&& columns@[m].description@ == description_for(
                        classifier_views(output.columns@),
                        names@[m]@,
                    )
                    &&& views(columns@[m].values@) == values@[m]@.map_values(
                        |v: Option<String>| value_or_empty(v),
                    )
                },
        decreases names.len() - j,
    {
        let description = column_description(&output.columns, names[j].as_str());
        let mut cells: Vec<String> = Vec::new();
        let mut i: usize = 0;
        while i < values[j].len()
            invariant
                j < values.len(),
                i <= values@[j as int].len(),
                views(cells@) == values@[j as int]@.take(i as int).map_values(
                    |v: Option<String>| value_or_empty(v),
                ),
            decreases values@[j as int].len() - i,
        {
            let ghost before = cells@;
            let cell = match &values[j][i] {
                Some(s) => s.clone(),
                None => String::new(),
            };
            assert(cell@ == value_or_empty(values@[j as int]@[i as int]));
            cells.push(cell);
            assert(views(cells@) =~= views(before).push(cell@));
            assert(views(cells@) =~= values@[j as int]@.take(i + 1).map_values(
                |v: Option<String>| value_or_empty(v),
            ));
            i = i + 1;
        }
        assert(values@[j as int]@.take(values@[j as int].len() as int) == values@[j as int]@);
        columns.push(Column { name: names[j].clone(), description, values: cells });
        j = j + 1;
    }
    Data { title: output.title, description: output.description, columns }
}

} // verus!
