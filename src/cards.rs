use vstd::prelude::*;

verus! {

/// One header-labelled value inside a card.
#[derive(Clone, Debug)]
pub struct Kv {
    pub key: String,
    pub value: String,
}

impl View for Kv {
    type V = (Seq<char>, Seq<char>);

    open spec fn view(&self) -> (Seq<char>, Seq<char>) {
        (self.key@, self.value@)
    }
}

/// One extracted record: the data row's position after the header row, and
/// its labelled values in the order of the selected columns.
#[derive(Clone, Debug)]
pub struct Card {
    pub row_index: usize,
    pub kv: Vec<Kv>,
}

/// What a card is, mathematically.
pub type CardModel = (nat, Seq<(Seq<char>, Seq<char>)>);

impl View for Card {
    type V = CardModel;

    open spec fn view(&self) -> CardModel {
        (self.row_index as nat, self.kv@.map_values(|p: Kv| p@))
    }
}

/// The configuration that drives an extraction.
///
/// `title_row_index` is the 1-based position of the header row among the
/// sheet's rows (`None` stands for the first row); `columns_indexes` are
/// 0-based column positions, in the order the card lists them.
#[derive(Clone, Debug, PartialEq, Eq)]
pub struct CardsServerProps {
    pub title_row_index: Option<usize>,
    pub path: String,
    pub sheet: String,
    pub columns_indexes: Vec<usize>,
}

/// The value of a configuration, field by field.
pub type PropsModel = (Option<usize>, Seq<char>, Seq<char>, Seq<usize>);

impl View for CardsServerProps {
    type V = PropsModel;

    open spec fn view(&self) -> PropsModel {
        (self.title_row_index, self.path@, self.sheet@, self.columns_indexes@)
    }
}

/// Why an extraction or an introspection step failed.
#[derive(Clone, Copy, Debug, PartialEq, Eq, Structural)]
pub enum CardsError {
    /// The file could not be read as a spreadsheet.
    OpenError,
    /// The workbook has no sheet of the given name.
    SheetNotFound,
    /// The header row lies outside the sheet.
    HeaderNotFound,
    /// A selected column lies beyond the width of the header or of a data row.
    IndexOutOfRange,
}

/// The text of every cell, row by row.
pub type Grid = Seq<Seq<Seq<char>>>;

pub open spec fn row_view(row: Vec<String>) -> Seq<Seq<char>> {
    row@.map_values(|s: String| s@)
}

pub open spec fn grid_view(rows: Seq<Vec<String>>) -> Grid {
    rows.map_values(|r: Vec<String>| row_view(r))
}

/// The 1-based header row that a configuration asks for.
pub open spec fn title_row(title_row_index: Option<usize>) -> int {
    match title_row_index {
        Some(i) => i as int,
        None => 1,
    }
}

/// The header row exists in the sheet.
pub open spec fn header_found(g: Grid, title_row_index: Option<usize>) -> bool {
    1 <= title_row(title_row_index) <= g.len()
}

pub open spec fn header_spec(g: Grid, title_row_index: Option<usize>) -> Seq<Seq<char>> {
    g[title_row(title_row_index) - 1]
}

/// Number of data rows: those strictly after the header row.
pub open spec fn data_len(g: Grid, title_row_index: Option<usize>) -> int {
    g.len() - title_row(title_row_index)
}

/// Data row `k` (0-based among the data rows).
pub open spec fn data_row(g: Grid, title_row_index: Option<usize>, k: int) -> Seq<Seq<char>> {
    g[title_row(title_row_index) + k]
}

/// Every selected column lies within both the header and the row.
pub open spec fn columns_fit(header: Seq<Seq<char>>, row: Seq<Seq<char>>, cols: Seq<usize>) -> bool {
    forall|j: int| 0 <= j < cols.len() ==> #[trigger] cols[j] < header.len() && cols[j] < row.len()
}

/// A labelled value is kept only when both its label and its value are non-empty.
pub open spec fn kv_kept(key: Seq<char>, value: Seq<char>) -> bool {
    key.len() > 0 && value.len() > 0
}

/// The labelled values of one row, in the order of `cols`.
pub open spec fn kvs_spec(header: Seq<Seq<char>>, row: Seq<Seq<char>>, cols: Seq<usize>) -> Seq<
    (Seq<char>, Seq<char>),
>
    decreases cols.len(),
{
    if cols.len() == 0 {
        Seq::empty()
    } else {
        let prev = kvs_spec(header, row, cols.drop_last());
        let c = cols.last() as int;
        if kv_kept(header[c], row[c]) {
            prev.push((header[c], row[c]))
        } else {
            prev
        }
    }
}

/// Some data row does not hold every selected column.
pub open spec fn some_column_out_of_range(g: Grid, title_row_index: Option<usize>, cols: Seq<usize>) -> bool {
    exists|k: int|
        0 <= k < data_len(g, title_row_index) && !columns_fit(
            header_spec(g, title_row_index),
            #[trigger] data_row(g, title_row_index, k),
            cols,
        )
}

/// The cards of a sheet, or the reason there are none.
pub open spec fn cards_spec(g: Grid, title_row_index: Option<usize>, cols: Seq<usize>) -> Result<
    Seq<CardModel>,
    CardsError,
> {
    if !header_found(g, title_row_index) {
        Err(CardsError::HeaderNotFound)
    } else if some_column_out_of_range(g, title_row_index, cols) {
        Err(CardsError::IndexOutOfRange)
    } else {
        Ok(
            Seq::new(
                data_len(g, title_row_index) as nat,
                |k: int|
                    (
                        k as nat,
                        kvs_spec(
                            header_spec(g, title_row_index),
                            data_row(g, title_row_index, k),
                            cols,
                        ),
                    ),
            ),
        )
    }
}

pub open spec fn cards_view(cards: Seq<Card>) -> Seq<CardModel> {
    cards.map_values(|c: Card| c@)
}

pub open spec fn result_view(r: Result<Vec<Card>, CardsError>) -> Result<Seq<CardModel>, CardsError> {
    match r {
        Ok(v) => Ok(cards_view(v@)),
        Err(e) => Err(e),
    }
}

/// Two extractions with configurations of equal value over the same sheet
/// give the same cards, in the same order, or the same error.
pub proof fn lemma_extract_idempotent(g: Grid, p: CardsServerProps, q: CardsServerProps)
    requires
        p@ == q@,
    ensures
        cards_spec(g, p.title_row_index, p.columns_indexes@) == cards_spec(
            g,
            q.title_row_index,
            q.columns_indexes@,
        ),
{
}

/// Cards are numbered 0, 1, 2, ... in sheet order from the first row after
/// the header row, one per data row, whichever columns are selected.
pub proof fn lemma_row_indexes(g: Grid, title_row_index: Option<usize>, c1: Seq<usize>, c2: Seq<usize>)
    requires
        cards_spec(g, title_row_index, c1) is Ok,
        cards_spec(g, title_row_index, c2) is Ok,
    ensures
        ({
            let a = cards_spec(g, title_row_index, c1)->Ok_0;
            let b = cards_spec(g, title_row_index, c2)->Ok_0;
            &&& a.len() == b.len()
            &&& a.len() == data_len(g, title_row_index)
            &&& forall|k: int| 0 <= k < a.len() ==> (#[trigger] a[k]).0 == k && b[k].0 == k
        }),
{
}

/// Leaving out the header row is the same as choosing the first row.
pub proof fn lemma_default_title_row(g: Grid, cols: Seq<usize>)
    ensures
        cards_spec(g, None, cols) == cards_spec(g, Some(1usize), cols),
{
    let a = cards_spec(g, None, cols);
    let b = cards_spec(g, Some(1usize), cols);
    assert(title_row(None) == title_row(Some(1usize)));
    if !header_found(g, None) {
    } else if some_column_out_of_range(g, None, cols) {
        let k = choose|k: int|
            0 <= k < data_len(g, None) && !columns_fit(
                header_spec(g, None),
                #[trigger] data_row(g, None, k),
                cols,
            );
        assert(data_row(g, Some(1usize), k) == data_row(g, None, k));
    } else {
        assert forall|k: int| 0 <= k < data_len(g, Some(1usize)) implies columns_fit(
            header_spec(g, Some(1usize)),
            #[trigger] data_row(g, Some(1usize), k),
            cols,
        ) by {
            assert(data_row(g, Some(1usize), k) == data_row(g, None, k));
        }
        assert(a->Ok_0 =~= b->Ok_0);
    }
}

/// A selected column beyond the header or beyond any data row makes the whole
/// extraction fail with `IndexOutOfRange`: no card is returned.
pub proof fn lemma_out_of_range_fails(g: Grid, title_row_index: Option<usize>, cols: Seq<usize>, k: int, j: int)
    requires
        header_found(g, title_row_index),
        0 <= k < data_len(g, title_row_index),
        0 <= j < cols.len(),
        cols[j] >= header_spec(g, title_row_index).len() || cols[j] >= data_row(
            g,
            title_row_index,
            k,
        ).len(),
    ensures
        cards_spec(g, title_row_index, cols) == Err::<Seq<CardModel>, _>(CardsError::IndexOutOfRange),
{
    assert(!columns_fit(header_spec(g, title_row_index), data_row(g, title_row_index, k), cols));
}

/// A column gives a labelled value exactly when both its label and its value
/// are non-empty.
pub proof fn lemma_kv_kept_iff_nonempty(header: Seq<Seq<char>>, row: Seq<Seq<char>>, c: usize)
    requires
        c < header.len(),
        c < row.len(),
    ensures
        kvs_spec(header, row, seq![c]) == if header[c as int].len() > 0 && row[c as int].len() > 0 {
            seq![(header[c as int], row[c as int])]
        } else {
            Seq::<(Seq<char>, Seq<char>)>::empty()
        },
{
    let cols = seq![c];
    assert(cols.drop_last() =~= Seq::<usize>::empty());
    assert(kvs_spec(header, row, Seq::<usize>::empty()) == Seq::<(Seq<char>, Seq<char>)>::empty());
    assert(Seq::<(Seq<char>, Seq<char>)>::empty().push((header[c as int], row[c as int])) =~= seq![
        (header[c as int], row[c as int]),
    ]);
}

/// The header labels of a sheet, or `HeaderNotFound`.
pub open spec fn headers_spec(g: Grid, title_row_index: Option<usize>) -> Result<Seq<Seq<char>>, CardsError> {
    if header_found(g, title_row_index) {
        Ok(header_spec(g, title_row_index))
    } else {
        Err(CardsError::HeaderNotFound)
    }
}

/// The header labels at the configured row of a sheet given as rows of text.
pub fn headers_from_rows(rows: &Vec<Vec<String>>, title_row_index: Option<usize>) -> (r: Result<Vec<String>, CardsError>)
    ensures
        match r {
            Ok(h) => headers_spec(grid_view(rows@), title_row_index) == Ok::<_, CardsError>(row_view(h)),
            Err(e) => headers_spec(grid_view(rows@), title_row_index) == Err::<Seq<Seq<char>>, _>(e),
        },
{
    let t: usize = match title_row_index {
        Some(i) => i,
        None => 1,
    };
    if t == 0 || t > rows.len() {
        return Err(CardsError::HeaderNotFound);
    }
    Ok(copy_row(&rows[t - 1]))
}

/// The labelled values of one data row, or `IndexOutOfRange` when a selected
/// column lies beyond the header or the row.
fn row_kvs(header: &Vec<String>, row: &Vec<String>, cols: &Vec<usize>) -> (r: Result<Vec<Kv>, CardsError>)
    ensures
        match r {
            Ok(kv) => columns_fit(row_view(*header), row_view(*row), cols@) && kv@.map_values(
                |p: Kv| p@,
            ) == kvs_spec(row_view(*header), row_view(*row), cols@),
            Err(e) => e == CardsError::IndexOutOfRange && !columns_fit(
                row_view(*header),
                row_view(*row),
                cols@,
            ),
        },
{
    let ghost h = row_view(*header);
    let ghost w = row_view(*row);
    let mut kv: Vec<Kv> = Vec::new();
    let mut j: usize = 0;
    while j < cols.len()
        invariant
            j <= cols.len(),
            h == row_view(*header),
            w == row_view(*row),
            columns_fit(h, w, cols@.subrange(0, j as int)),
            kv@.map_values(|p: Kv| p@) == kvs_spec(h, w, cols@.subrange(0, j as int)),
        decreases cols.len() - j,
    {
        let c = cols[j];
        if c >= header.len() || c >= row.len() {
            assert(cols@[j as int] == c);
            return Err(CardsError::IndexOutOfRange);
        }
        let ghost before = kv@.map_values(|p: Kv| p@);
        let ghost next = cols@.subrange(0, j + 1);
        assert(next.drop_last() =~= cols@.subrange(0, j as int));
        assert(next.last() == c);
        if !header[c].as_str().is_empty() && !row[c].as_str().is_empty() {
            kv.push(Kv { key: header[c].clone(), value: row[c].clone() });
            assert(kv@.map_values(|p: Kv| p@) =~= before.push((h[c as int], w[c as int])));
        }
        assert(columns_fit(h, w, next)) by {
            assert forall|i: int| 0 <= i < next.len() implies #[trigger] next[i] < h.len() && next[i]
                < w.len() by {
                if i < j {
                    assert(next[i] == cols@.subrange(0, j as int)[i]);
                }
            }
        }
        j = j + 1;
    }
    assert(cols@.subrange(0, j as int) =~= cols@);
    Ok(kv)
}

/// The cards of a sheet given as rows of cell text: one card per row after the
/// header row, numbered from 0, each holding the labelled values of the
/// selected columns whose label and value are both non-empty.
pub fn cards_from_rows(rows: &Vec<Vec<String>>, title_row_index: Option<usize>, columns_indexes: &Vec<usize>) -> (r: Result<Vec<Card>, CardsError>)
    ensures
        result_view(r) == cards_spec(grid_view(rows@), title_row_index, columns_indexes@),
{
    let ghost g = grid_view(rows@);
    let t: usize = match title_row_index {
        Some(i) => i,
        None => 1,
    };
    if t == 0 || t > rows.len() {
        return Err(CardsError::HeaderNotFound);
    }
    let header = &rows[t - 1];
    assert(row_view(*header) == header_spec(g, title_row_index));
    let ghost n = data_len(g, title_row_index);
    let ghost expected = Seq::new(
        n as nat,
        |k: int|
            (
                k as nat,
                kvs_spec(header_spec(g, title_row_index), data_row(g, title_row_index, k), columns_indexes@),
            ),
    );
    let mut cards: Vec<Card> = Vec::new();
    let mut k: usize = t;
    while k < rows.len()
        invariant
            t == title_row(title_row_index),
            1 <= t <= k <= rows.len(),
            g == grid_view(rows@),
            n == data_len(g, title_row_index),
            row_view(*header) == header_spec(g, title_row_index),
            expected == Seq::new(
                n as nat,
                |k: int|
                    (
                        k as nat,
                        kvs_spec(header_spec(g, title_row_index), data_row(g, title_row_index, k), columns_indexes@),
                    ),
            ),
            forall|i: int|
                0 <= i < k - t ==> columns_fit(
                    header_spec(g, title_row_index),
                    #[trigger] data_row(g, title_row_index, i),
                    columns_indexes@,
                ),
            cards_view(cards@) == expected.subrange(0, k - t),
        decreases rows.len() - k,
    {
        assert(row_view(rows@[k as int]) == data_row(g, title_row_index, k - t));
        match row_kvs(header, &rows[k], columns_indexes) {
            Ok(kv) => {
                let ghost before = cards_view(cards@);
                cards.push(Card { row_index: k - t, kv });
                assert(cards_view(cards@) =~= expected.subrange(0, k - t + 1)) by {
                    assert(cards_view(cards@) =~= before.push(expected[k - t]));
                }
            },
            Err(e) => {
                assert(some_column_out_of_range(g, title_row_index, columns_indexes@));
                return Err(e);
            },
        }
        k = k + 1;
    }
    assert(!some_column_out_of_range(g, title_row_index, columns_indexes@));
    assert(cards_view(cards@) =~= expected);
    Ok(cards)
}

/// A copy of one row of cell texts.
fn copy_row(row: &Vec<String>) -> (r: Vec<String>)
    ensures
        row_view(r) == row_view(*row),
{
    let mut r: Vec<String> = Vec::new();
    let mut i: usize = 0;
    while i < row.len()
        invariant
            i <= row.len(),
            r@.len() == i,
            forall|j: int| 0 <= j < i ==> #[trigger] r@[j]@ == row@[j]@,
        decreases row.len() - i,
    {
        r.push(row[i].clone());
        i = i + 1;
    }
    assert(row_view(r) =~= row_view(*row));
    r
}

} // verus!
