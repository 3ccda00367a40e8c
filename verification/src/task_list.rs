//! The immutable columnar table: column name -> ordered sequence of cells.

use vstd::prelude::*;

use crate::text::str_eq;
use crate::value::Value;
use crate::value::ValueView;

verus! {

/// Why a single cell lookup failed.
#[derive(PartialEq, Eq, Structural, Clone, Copy, Debug)]
pub enum CellError {
    /// The table has no column of the requested name.
    UnknownColumn,
    /// The row index is past the end of the addressed column.
    IndexOutOfRange,
}

/// The sequence of the addressed column, if a column of that name exists.
/// When several columns share a name, the first one added wins.
pub open spec fn col_of(cols: Seq<(Seq<char>, Seq<ValueView>)>, name: Seq<char>) -> Option<
    Seq<ValueView>,
>
    decreases cols.len(),
{
    if cols.len() == 0 {
        None
    } else if cols[0].0 == name {
        Some(cols[0].1)
    } else {
        col_of(cols.skip(1), name)
    }
}

/// The cell at the addressed position, or the reason there is none. A row
/// index is valid only strictly below the column's length.
pub open spec fn cell_at(
    cols: Seq<(Seq<char>, Seq<ValueView>)>,
    name: Seq<char>,
    row: int,
) -> Result<ValueView, CellError> {
    match col_of(cols, name) {
        None => Err(CellError::UnknownColumn),
        Some(col) => if 0 <= row < col.len() {
            Ok(col[row])
        } else {
            Err(CellError::IndexOutOfRange)
        },
    }
}

/// The logical row count of a non-empty table: the minimum length over all
/// its columns.
pub open spec fn row_count(cols: Seq<(Seq<char>, Seq<ValueView>)>) -> nat
    decreases cols.len(),
{
    if cols.len() <= 1 {
        cols[0].1.len()
    } else if cols[0].1.len() <= row_count(cols.skip(1)) {
        cols[0].1.len()
    } else {
        row_count(cols.skip(1))
    }
}

/// The row count of a non-empty table is the length of a shortest column:
/// no longer than any column, and exactly the length of one of them.
pub proof fn lemma_row_count_is_min(cols: Seq<(Seq<char>, Seq<ValueView>)>)
    requires
        cols.len() > 0,
    ensures
        forall|i: int| 0 <= i < cols.len() ==> row_count(cols) <= #[trigger] cols[i].1.len(),
        exists|i: int| 0 <= i < cols.len() && row_count(cols) == #[trigger] cols[i].1.len(),
    decreases cols.len(),
{
    if cols.len() == 1 {
        assert(row_count(cols) == cols[0].1.len());
    } else {
        lemma_row_count_is_min(cols.skip(1));
        assert(forall|i: int| 0 <= i < cols.skip(1).len() ==> #[trigger] cols.skip(1)[i].1.len()
            == cols[i + 1].1.len());
        let w = choose|i: int|
            0 <= i < cols.skip(1).len() && row_count(cols.skip(1)) == #[trigger] cols.skip(
                1,
            )[i].1.len();
        if cols[0].1.len() <= row_count(cols.skip(1)) {
            assert(row_count(cols) == cols[0].1.len());
        } else {
            assert(row_count(cols) == cols[w + 1].1.len());
        }
        assert forall|i: int| 0 <= i < cols.len() implies row_count(cols)
            <= #[trigger] cols[i].1.len() by {
            if i > 0 {
                assert(cols.skip(1)[i - 1].1.len() == cols[i].1.len());
            }
        }
    }
}

/// An immutable columnar table over ingested tabular data. Columns may have
/// different lengths; the logical row count is the minimum over all columns.
pub struct TaskList {
    columns: Vec<(String, Vec<Value>)>,
}

impl View for TaskList {
    type V = Seq<(Seq<char>, Seq<ValueView>)>;

    closed spec fn view(&self) -> Seq<(Seq<char>, Seq<ValueView>)> {
        self.columns.deep_view()
    }
}

impl TaskList {
    /// Builds the store directly from named raw cell columns, in order; no
    /// validation beyond accepting ragged columns.
    pub fn from(columns: Vec<(String, Vec<Value>)>) -> (r: Self)
        ensures
            r@ == columns.deep_view(),
    {
        TaskList { columns }
    }

    /// The logical row count: the minimum length over all columns, or `None`
    /// for a table with no columns at all, which has no well-defined length.
    pub fn len(&self) -> (r: Option<usize>)
        ensures
            match r {
                None => self@.len() == 0,
                Some(n) => self@.len() > 0 && n == row_count(self@),
            },
    {
        let mut best: Option<usize> = None;
        let n = self.columns.len();
        proof {
            assert(self@.len() == n);
        }
        let mut i: usize = 0;
        while i < n
            invariant
                0 <= i <= n,
                n == self@.len(),
                n == self.columns.len(),
                self@ == self.columns.deep_view(),
                match best {
                    None => i == 0,
                    Some(b) => i > 0 && b == row_count(self@.take(i as int)),
                },
            decreases n - i,
        {
            proof {
                assert(self.columns.deep_view()[i as int] == (
                    self.columns[i as int].0@,
                    self.columns[i as int].1.deep_view(),
                ));
                assert(self@[i as int].1.len() == self.columns[i as int].1.len());
            }
            let cur: usize = self.columns[i].1.len();
            let next: usize = match best {
                None => cur,
                Some(b) => if cur <= b {
                    cur
                } else {
                    b
                },
            };
            proof {
                if i == 0 {
                    assert(self@.take(1)[0] == self@[0]);
                } else {
                    lemma_row_count_step(self@, i as int);
                }
            }
            best = Some(next);
            i = i + 1;
        }
        proof {
            assert(self@.take(n as int) =~= self@);
        }
        best
    }

    /// The cell at `(header, index)`. Fails with `UnknownColumn` when no
    /// column bears that name, and with `IndexOutOfRange` when `index` is not
    /// strictly below the column's length (the bound is strict: a table of
    /// `n` rows has valid indices `0 .. n-1` only).
    pub fn get(&self, header: &str, index: usize) -> (r: Result<Value, CellError>)
        ensures
            match r {
                Ok(v) => cell_at(self@, header@, index as int) == Ok::<ValueView, CellError>(v@),
                Err(e) => cell_at(self@, header@, index as int) == Err::<ValueView, CellError>(e),
            },
    {
        let n = self.columns.len();
        proof {
            assert(self@.skip(0) =~= self@);
        }
        let mut i: usize = 0;
        while i < n
            invariant
                0 <= i <= n,
                n == self.columns.len(),
                self@ == self.columns.deep_view(),
                col_of(self@, header@) == col_of(self@.skip(i as int), header@),
                forall|k: int| 0 <= k < i ==> #[trigger] self@[k].0 != header@,
            decreases n - i,
        {
            proof {
                assert(self.columns.deep_view()[i as int] == (
                    self.columns[i as int].0@,
                    self.columns[i as int].1.deep_view(),
                ));
            }
            if str_eq(self.columns[i].0.as_str(), header) {
                proof {
                    assert(self@.skip(i as int)[0] == self@[i as int]);
                    assert(col_of(self@, header@) == Some(self@[i as int].1));
                }
                let col = &self.columns[i].1;
                if index < col.len() {
                    proof {
                        assert(col.deep_view()[index as int] == col[index as int].deep_view());
                    }
                    return Ok(col[index].clone());
                } else {
                    return Err(CellError::IndexOutOfRange);
                }
            }
            proof {
                assert(self@.skip(i as int)[0] == self@[i as int]);
                assert(self@.skip(i as int).skip(1) =~= self@.skip(i + 1));
            }
            i = i + 1;
        }
        proof {
            assert(self@.skip(n as int) =~= Seq::<(Seq<char>, Seq<ValueView>)>::empty());
        }
        Err(CellError::UnknownColumn)
    }
}

proof fn lemma_row_count_step(cols: Seq<(Seq<char>, Seq<ValueView>)>, i: int)
    requires
        0 < i < cols.len(),
    ensures
        row_count(cols.take(i + 1)) == if cols[i].1.len() <= row_count(cols.take(i)) {
            cols[i].1.len()
        } else {
            row_count(cols.take(i))
        },
    decreases i,
{
    let a = cols.take(i + 1);
    let b = cols.take(i);
    if i == 1 {
        assert(a.skip(1) =~= seq![cols[1]]);
        assert(row_count(a.skip(1)) == cols[1].1.len());
    } else {
        lemma_row_count_step(cols.skip(1), i - 1);
        assert(a.skip(1) =~= cols.skip(1).take(i));
        assert(b.skip(1) =~= cols.skip(1).take(i - 1));
        assert(cols.skip(1)[i - 1] == cols[i]);
    }
}

} // verus!
