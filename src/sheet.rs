use vstd::prelude::*;
use calamine::{Data, Range};
use crate::cards::{
    cards_from_rows, cards_spec, grid_view, headers_from_rows, headers_spec, result_view,
    row_view, Card, CardsError, CardsServerProps, Grid,
};

verus! {

#[verifier::external_type_specification]
#[verifier::external_body]
#[verifier::reject_recursive_types(T)]
pub struct ExRange<T>(Range<T>);

#[verifier::external_type_specification]
#[verifier::external_body]
pub struct ExData(Data);

/// The text of every cell of a sheet's range, row by row, as calamine
/// displays each cell (an empty cell reads as the empty text).
pub uninterp spec fn range_text(r: Range<Data>) -> Grid;

/// Relies on calamine's `Range::height`: the number of rows of the range.
#[verifier::external_body]
fn range_height(r: &Range<Data>) -> (n: usize)
    ensures
        n == range_text(*r).len(),
{
    r.height()
}

/// Relies on calamine's `Range::width`: every row of a range is as wide as
/// the range.
#[verifier::external_body]
fn range_width(r: &Range<Data>) -> (w: usize)
    ensures
        forall|i: int| 0 <= i < range_text(*r).len() ==> (#[trigger] range_text(*r)[i]).len() == w,
{
    r.width()
}

/// Relies on calamine's cell indexing `range[(row, col)]`, which panics
/// outside the range, and on the `Display` of `Data` for the cell's text.
#[verifier::external_body]
fn cell_text(r: &Range<Data>, row: usize, col: usize) -> (s: String)
    requires
        row < range_text(*r).len(),
        col < range_text(*r)[row as int].len(),
    ensures
        s@ == range_text(*r)[row as int][col as int],
{
    r[(row, col)].to_string()
}

/// The text of every cell of a range, row by row.
pub fn range_rows(range: &Range<Data>) -> (rows: Vec<Vec<String>>)
    ensures
        grid_view(rows@) == range_text(*range),
{
    let ghost g = range_text(*range);
    let height = range_height(range);
    let width = range_width(range);
    let mut rows: Vec<Vec<String>> = Vec::new();
    let mut i: usize = 0;
    while i < height
        invariant
            g == range_text(*range),
            height == g.len(),
            forall|k: int| 0 <= k < g.len() ==> (#[trigger] g[k]).len() == width,
            i <= height,
            rows@.len() == i,
            forall|k: int| 0 <= k < i ==> row_view(#[trigger] rows@[k]) == g[k],
        decreases height - i,
    {
        let mut row: Vec<String> = Vec::new();
        let mut j: usize = 0;
        while j < width
            invariant
                g == range_text(*range),
                i < g.len(),
                g[i as int].len() == width,
                j <= width,
                row@.len() == j,
                forall|c: int| 0 <= c < j ==> (#[trigger] row@[c])@ == g[i as int][c],
            decreases width - j,
        {
            row.push(cell_text(range, i, j));
            j = j + 1;
        }
        assert(row_view(row) =~= g[i as int]);
        rows.push(row);
        i = i + 1;
    }
    assert(grid_view(rows@) =~= g);
    rows
}

/// The cards of a sheet for a configuration: see `cards_from_rows`.
pub fn get_cards(range: &Range<Data>, reqs: &CardsServerProps) -> (r: Result<Vec<Card>, CardsError>)
    ensures
        result_view(r) == cards_spec(range_text(*range), reqs.title_row_index, reqs.columns_indexes@),
{
    let rows = range_rows(range);
    cards_from_rows(&rows, reqs.title_row_index, &reqs.columns_indexes)
}

/// The header labels of a sheet at the given 1-based row (the first when `None`).
pub fn get_headers(range: &Range<Data>, headers_index: Option<usize>) -> (r: Result<Vec<String>, CardsError>)
    ensures
        match r {
            Ok(h) => headers_spec(range_text(*range), headers_index) == Ok::<_, CardsError>(row_view(h)),
            Err(e) => headers_spec(range_text(*range), headers_index) == Err::<Seq<Seq<char>>, _>(e),
        },
{
    let rows = range_rows(range);
    headers_from_rows(&rows, headers_index)
}

/// The number of rows of a sheet, or 0 when the sheet could not be read.
pub fn rows_height(range: Option<&Range<Data>>) -> (n: usize)
    ensures
        n == match range {
            Some(r) => range_text(*r).len(),
            None => 0,
        },
{
    match range {
        Some(r) => range_height(r),
        None => 0,
    }
}

/// The header rows a user may choose among: `1..=height`.
pub fn title_row_choices(height: usize) -> (r: Vec<usize>)
    ensures
        r@.len() == height,
        forall|i: int| 0 <= i < height ==> #[trigger] r@[i] == i + 1,
{
    let mut r: Vec<usize> = Vec::new();
    let mut i: usize = 0;
    while i < height
        invariant
            i <= height,
            r@.len() == i,
            forall|k: int| 0 <= k < i ==> #[trigger] r@[k] == k + 1,
        decreases height - i,
    {
        i = i + 1;
        r.push(i);
    }
    r
}

} // verus!
