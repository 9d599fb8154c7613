//! Spreadsheets: the first sheet of a workbook, written out as CSV text.
use vstd::prelude::*;
use crate::error::FinanalizeError;
use crate::text::{join, join_strings, views};

verus! {

/// Reads the first sheet of a workbook as a table of data.
pub struct ExcelExtractor;

/// The rows as CSV text: the cells of each row joined with commas, each row
/// ended by a line feed.
pub open spec fn csv_text(rows: Seq<Seq<Seq<char>>>) -> Seq<char>
    decreases rows.len(),
{
    if rows.len() == 0 {
        seq![]
    } else {
        csv_text(rows.drop_last()) + join(rows.last(), ","@) + "\n"@
    }
}

/// The rows' cells, as plain values.
pub open spec fn row_views(rows: Seq<Vec<String>>) -> Seq<Seq<Seq<char>>> {
    rows.map_values(|r: Vec<String>| views(r@))
}

/// The sheet to read: the first of the workbook, or an internal error when
/// the workbook has none.
pub fn first_sheet(names: &Vec<String>) -> (r: Result<String, FinanalizeError>)
    ensures
        names.len() == 0 ==> r matches Err(FinanalizeError::InternalServerError),
        names.len() > 0 ==> (r matches Ok(s) && s@ == names@[0]@),
{
    if names.len() == 0 {
        Err(FinanalizeError::InternalServerError)
    } else {
        Ok(names[0].clone())
    }
}

/// The rows of a sheet, each cell as it is displayed, as CSV text.
pub fn rows_to_csv(rows: &Vec<Vec<String>>) -> (r: String)
    ensures
        r@ == csv_text(row_views(rows@)),
{
    let mut r = String::new();
    let mut i: usize = 0;
    while i < rows.len()
        invariant
            i <= rows.len(),
            r@ == csv_text(row_views(rows@).take(i as int)),
        decreases rows.len() - i,
    {
        assert(row_views(rows@).take(i + 1).drop_last() == row_views(rows@).take(i as int));
        let line = join_strings(&rows[i], ",");
        r.append(line.as_str());
        r.append("\n");
        i = i + 1;
    }
    assert(row_views(rows@).take(rows.len() as int) == row_views(rows@));
    r
}

} // verus!
