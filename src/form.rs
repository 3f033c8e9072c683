use vstd::prelude::*;
use crate::cards::CardsServerProps;

verus! {

/// The text with leading and trailing whitespace removed, as `str::trim`
/// gives it.
pub uninterp spec fn trim_of(s: Seq<char>) -> Seq<char>;

/// Relies on `str::trim`.
#[verifier::external_body]
fn trimmed(s: &str) -> (r: String)
    ensures
        r@ == trim_of(s@),
{
    s.trim().to_string()
}

/// The values a user has entered so far to describe an extraction.
#[derive(Clone, Debug)]
pub struct XlsxForm {
    /// The title printed on every card.
    pub title: String,
    /// The workbook, once a path to an existing spreadsheet file was typed.
    pub path: Option<String>,
    pub sheetname: String,
    /// The 1-based header row; `None` stands for the first row.
    pub title_row_index: Option<usize>,
    /// The selected columns, in the order they were selected.
    pub columns_indexs: Vec<usize>,
}

/// The selection after a column's box was ticked or cleared: ticking appends
/// the column, clearing removes every occurrence of it.
pub open spec fn toggled(cols: Seq<usize>, index: usize, checked: bool) -> Seq<usize> {
    if checked {
        cols.push(index)
    } else {
        without(cols, index)
    }
}

/// The selection with every occurrence of `index` removed.
pub open spec fn without(cols: Seq<usize>, index: usize) -> Seq<usize> {
    cols.filter(|c: usize| c != index)
}

impl XlsxForm {
    /// Every value that an extraction needs is there.
    pub open spec fn is_complete(&self) -> bool {
        &&& self.path is Some
        &&& self.sheetname@.len() > 0
        &&& self.columns_indexs@.len() > 0
        &&& self.title@.len() > 0
    }

    /// An empty form.
    pub fn new() -> (f: XlsxForm)
        ensures
            f.title@.len() == 0,
            f.path is None,
            f.sheetname@.len() == 0,
            f.title_row_index is None,
            f.columns_indexs@.len() == 0,
    {
        XlsxForm {
            title: String::new(),
            path: None,
            sheetname: String::new(),
            title_row_index: None,
            columns_indexs: Vec::new(),
        }
    }

    /// Takes the typed card title, without surrounding whitespace.
    pub fn set_title(&mut self, raw: &str)
        ensures
            final(self).title@ == trim_of(raw@),
            final(self).path == old(self).path,
            final(self).sheetname == old(self).sheetname,
            final(self).title_row_index == old(self).title_row_index,
            final(self).columns_indexs == old(self).columns_indexs,
    {
        self.title = trimmed(raw);
    }

    /// Takes the chosen sheet name, without surrounding whitespace.
    pub fn set_sheetname(&mut self, raw: &str)
        ensures
            final(self).sheetname@ == trim_of(raw@),
            final(self).title == old(self).title,
            final(self).path == old(self).path,
            final(self).title_row_index == old(self).title_row_index,
            final(self).columns_indexs == old(self).columns_indexs,
    {
        self.sheetname = trimmed(raw);
    }

    /// Records that the box of column `index` was ticked or cleared.
    pub fn toggle_column(&mut self, index: usize, checked: bool)
        ensures
            final(self).columns_indexs@ == toggled(old(self).columns_indexs@, index, checked),
            final(self).title == old(self).title,
            final(self).path == old(self).path,
            final(self).sheetname == old(self).sheetname,
            final(self).title_row_index == old(self).title_row_index,
    {
        if checked {
            self.columns_indexs.push(index);
        } else {
            let ghost cols = self.columns_indexs@;
            let mut kept: Vec<usize> = Vec::new();
            let mut i: usize = 0;
            while i < self.columns_indexs.len()
                invariant
                    cols == self.columns_indexs@,
                    i <= cols.len(),
                    kept@ == without(cols.subrange(0, i as int), index),
                decreases cols.len() - i,
            {
                let c = self.columns_indexs[i];
                proof {
                    let next = cols.subrange(0, i + 1);
                    assert(next.drop_last() =~= cols.subrange(0, i as int));
                    assert(next.last() == c);
                    reveal(Seq::filter);
                }
                if c != index {
                    kept.push(c);
                }
                i = i + 1;
            }
            assert(cols.subrange(0, i as int) =~= cols);
            self.columns_indexs = kept;
        }
    }

    /// The submit button is disabled while the form is incomplete.
    pub fn disabled(&self) -> (r: bool)
        ensures
            r == !self.is_complete(),
    {
        self.path.is_none() || self.sheetname.as_str().is_empty() || self.columns_indexs.len() == 0
            || self.title.as_str().is_empty()
    }

    /// The configuration to extract cards with, once the form is complete;
    /// `None` while any value is missing.
    pub fn on_submit(&self) -> (r: Option<CardsServerProps>)
        ensures
            r is Some <==> self.is_complete(),
            r matches Some(p) ==> p.title_row_index == self.title_row_index && self.path
                == Some(p.path) && p.sheet == self.sheetname && p.columns_indexes@
                == self.columns_indexs@,
    {
        if self.disabled() {
            return None;
        }
        match &self.path {
            Some(path) => Some(
                CardsServerProps {
                    title_row_index: self.title_row_index,
                    path: path.clone(),
                    sheet: self.sheetname.clone(),
                    columns_indexes: self.columns_indexs.clone(),
                },
            ),
            None => None,
        }
    }
}

/// The latest result of one recomputed stage. Every new input issues a
/// generation number; a result is kept only when it belongs to the latest
/// generation, so a slow computation for an older input never overwrites
/// the result for a newer one.
pub struct Stage<T> {
    issued: u64,
    value: Option<T>,
}

impl<T> Stage<T> {
    /// The generation issued last.
    pub closed spec fn latest(&self) -> nat {
        self.issued as nat
    }

    /// The result kept for the latest generation, if it has arrived.
    pub closed spec fn current_spec(&self) -> Option<T> {
        self.value
    }

    pub fn new() -> (s: Stage<T>)
        ensures
            s.latest() == 0,
            s.current_spec() is None,
    {
        Stage { issued: 0, value: None }
    }

    /// Starts a computation for a new input: the result kept so far is
    /// dropped, and the new generation is returned.
    pub fn issue(&mut self) -> (g: u64)
        requires
            old(self).latest() < u64::MAX,
        ensures
            g == final(self).latest(),
            final(self).latest() == old(self).latest() + 1,
            final(self).current_spec() is None,
    {
        self.issued = self.issued + 1;
        self.value = None;
        self.issued
    }

    /// Hands in the result of the computation of `generation`; it is kept
    /// only when that generation is the latest.
    pub fn complete(&mut self, generation: u64, value: T) -> (accepted: bool)
        ensures
            accepted == (generation == old(self).latest()),
            final(self).latest() == old(self).latest(),
            accepted ==> final(self).current_spec() == Some(value),
            !accepted ==> final(self).current_spec() == old(self).current_spec(),
    {
        if generation == self.issued {
            self.value = Some(value);
            true
        } else {
            false
        }
    }

    /// The result kept for the latest generation, if it has arrived.
    pub fn current(&self) -> (r: &Option<T>)
        ensures
            *r == self.current_spec(),
    {
        &self.value
    }

    /// The generation issued last.
    pub fn generation(&self) -> (g: u64)
        ensures
            g == self.latest(),
    {
        self.issued
    }
}

} // verus!
