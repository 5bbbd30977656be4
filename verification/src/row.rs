//! A sparse row: a mapping from column index to [`Cell`], together with the
//! highest occupied column index.

use vstd::prelude::*;

use std::collections::HashMap;
use std::collections::hash_map::Entry;

use crate::cell::{Cell, CellModel, cell_insert, cell_of_char, cell_of_text, cell_wf};
use crate::grid::{max_key_in_range, shift_down, shift_down_partial, shift_up, shift_up_partial};

verus! {

broadcast use vstd::std_specs::hash::group_hash_axioms;

/// Mathematical model of a row: its cells by column index and the recorded
/// highest occupied column.
#[verifier::ext_equal]
pub ghost struct RowModel {
    pub cells: Map<usize, CellModel>,
    pub max_col: usize,
}

/// A row is well formed when every occupied column lies at or below
/// `max_col` and every cell is itself well formed.
pub open spec fn row_wf(r: RowModel) -> bool {
    forall|k: usize| #[trigger] r.cells.dom().contains(k) ==> k <= r.max_col && cell_wf(r.cells[k])
}

/// The empty row.
pub open spec fn row_empty() -> RowModel {
    RowModel { cells: Map::empty(), max_col: 0 }
}

/// Typing `c` at column `col`: splice into the existing cell there, or
/// create a fresh cell holding `c` and widen `max_col` if needed.
pub open spec fn row_insert_at(r: RowModel, col: usize, c: char) -> RowModel {
    if r.cells.dom().contains(col) {
        RowModel { cells: r.cells.insert(col, cell_insert(r.cells[col], c)), max_col: r.max_col }
    } else {
        RowModel {
            cells: r.cells.insert(col, cell_of_char(c)),
            max_col: if col > r.max_col {
                col
            } else {
                r.max_col
            },
        }
    }
}

/// Placing a whole text at column `col`, as when loading a file.
pub open spec fn row_init_cell_at(r: RowModel, col: usize, text: Seq<char>) -> RowModel {
    RowModel {
        cells: r.cells.insert(col, cell_of_text(text)),
        max_col: if col > r.max_col {
            col
        } else {
            r.max_col
        },
    }
}

/// The highest occupied column of `cells` at or below `bound`, or 0 when
/// none is occupied.
pub open spec fn recomputed_max(cells: Map<usize, CellModel>, bound: usize) -> usize {
    match max_key_in_range(cells, 0, bound) {
        Some(k) => k,
        None => 0,
    }
}

/// Removing the cell at `col`; `max_col` is recomputed so that it keeps
/// naming the highest occupied column (0 when the row becomes empty).
pub open spec fn row_clear_cell(r: RowModel, col: usize) -> RowModel {
    let cells = r.cells.remove(col);
    RowModel { cells, max_col: recomputed_max(cells, r.max_col) }
}

/// Every occupied column at or above `at` moves right by one; `max_col`
/// grows by one.
pub open spec fn row_insert_column(r: RowModel, at: usize) -> RowModel {
    RowModel { cells: shift_up(r.cells, at), max_col: (r.max_col + 1) as usize }
}

/// The cell at `at` disappears and every occupied column above `at` moves
/// left by one; `max_col` is recomputed as for `row_clear_cell`.
pub open spec fn row_delete_column(r: RowModel, at: usize) -> RowModel {
    let cells = shift_down(r.cells, at);
    RowModel { cells, max_col: recomputed_max(cells, r.max_col) }
}

/// The model of a map of exec cells.
pub open spec fn cells_model(m: Map<usize, Cell>) -> Map<usize, CellModel> {
    m.map_values(|c: Cell| c.model())
}

/// Transfers a row's well-formedness to the underlying map of exec cells:
/// every key is bounded by `max_col` and every cell is well formed.
proof fn lemma_cells_view_bounded(m: Map<usize, Cell>, r: RowModel)
    requires
        r.cells == cells_model(m),
        row_wf(r),
    ensures
        forall|k: usize| #[trigger] m.dom().contains(k) ==> k <= r.max_col && cell_wf(
            m[k].model(),
        ),
{
    assert forall|k: usize| #[trigger] m.dom().contains(k) implies k <= r.max_col && cell_wf(
        m[k].model(),
    ) by {
        assert(r.cells.dom().contains(k));
        assert(r.cells[k] == m[k].model());
    }
}

/// A sparse mapping from column index to cell.
pub struct Row {
    cells: HashMap<usize, Cell>,
    max_col: usize,
}

impl Row {
    /// The abstract value of this row.
    pub closed spec fn model(&self) -> RowModel {
        RowModel { cells: cells_model(self.cells@), max_col: self.max_col as usize }
    }

    pub open spec fn wf(&self) -> bool {
        row_wf(self.model())
    }

    /// A row with no cells.
    pub fn new() -> (r: Row)
        ensures
            r.wf(),
            r.model() == row_empty(),
    {
        let r = Row { cells: HashMap::new(), max_col: 0 };
        proof {
            assert(r.model().cells =~= row_empty().cells);
        }
        r
    }

    /// The cell at column `x`, if one has been created there.
    pub fn at(&self, x: usize) -> (r: Option<&Cell>)
        ensures
            match r {
                Some(cell) => self.model().cells.dom().contains(x) && cell.model()
                    == self.model().cells[x],
                None => !self.model().cells.dom().contains(x),
            },
    {
        self.cells.get(&x)
    }

    /// The recorded highest occupied column index.
    pub fn max_col(&self) -> (r: usize)
        ensures
            r == self.model().max_col,
    {
        self.max_col
    }

    /// Type `c` at column `x`: splice it into the cell there, or create a
    /// fresh cell seeded with `c`.
    pub fn insert_at(&mut self, col_idx: usize, c: char)
        requires
            old(self).wf(),
        ensures
            final(self).wf(),
            final(self).model() == row_insert_at(old(self).model(), col_idx, c),
    {
        match self.cells.remove(&col_idx) {
            Some(mut cell) => {
                proof {
                    assert(old(self).model().cells.dom().contains(col_idx));
                    assert(cell.model() == old(self).model().cells[col_idx]);
                }
                cell.insert(c);
                self.cells.insert(col_idx, cell);
                proof {
                    assert(self.model().cells =~= row_insert_at(
                        old(self).model(),
                        col_idx,
                        c,
                    ).cells);
                }
            },
            None => {
                self.cells.insert(col_idx, Cell::from_char(c));
                if col_idx > self.max_col {
                    self.max_col = col_idx;
                }
                proof {
                    assert(self.model().cells =~= row_insert_at(
                        old(self).model(),
                        col_idx,
                        c,
                    ).cells);
                }
            },
        }
        proof {
            assert forall|k: usize| #[trigger] self.model().cells.dom().contains(k) implies k
                <= self.model().max_col && cell_wf(self.model().cells[k]) by {
                if k != col_idx {
                    assert(old(self).model().cells.dom().contains(k));
                }
            }
        }
    }

    /// A mutable borrow of the cell at column `x`, if one exists. The row's
    /// final value carries whatever the caller leaves in the borrowed cell.
    pub fn get_mut(&mut self, x: usize) -> (r: Option<&mut Cell>)
        ensures
            match r {
                Some(cell) => {
                    &&& old(self).model().cells.dom().contains(x)
                    &&& cell.model() == old(self).model().cells[x]
                    &&& final(self).model() == RowModel {
                        cells: old(self).model().cells.insert(x, final(cell).model()),
                        max_col: old(self).model().max_col,
                    }
                },
                None => {
                    &&& !old(self).model().cells.dom().contains(x)
                    &&& final(self).model() == old(self).model()
                },
            },
    {
        match self.cells.entry(x) {
            Entry::Occupied(e) => {
                let cell = e.into_mut();
                proof {
                    crate::grid::lemma_map_values_insert(
                        old(self).cells@,
                        x,
                        *final(cell),
                        |c: Cell| c.model(),
                    );
                }
                Some(cell)
            },
            Entry::Vacant(_) => {
                proof {
                    assert(old(self).cells@.remove(x) =~= old(self).cells@);
                }
                None
            },
        }
    }

    /// Place a cell holding `text` at column `col_idx`, as when loading a
    /// file.
    pub fn init_cell_at(&mut self, col_idx: usize, text: Vec<char>)
        requires
            old(self).wf(),
        ensures
            final(self).wf(),
            final(self).model() == row_init_cell_at(old(self).model(), col_idx, text@),
    {
        let ghost t = text@;
        self.cells.insert(col_idx, Cell::from_text(text));
        if col_idx > self.max_col {
            self.max_col = col_idx;
        }
        proof {
            assert(self.model().cells =~= row_init_cell_at(old(self).model(), col_idx, t).cells);
        }
    }

    /// Remove the cell at column `col_idx` and recompute `max_col` as the
    /// highest column still occupied (0 when none is).
    pub fn clear_cell(&mut self, col_idx: usize)
        requires
            old(self).wf(),
        ensures
            final(self).wf(),
            final(self).model() == row_clear_cell(old(self).model(), col_idx),
    {
        self.cells.remove(&col_idx);
        proof {
            assert(self.cells@ =~= old(self).cells@.remove(col_idx));
            assert(cells_model(self.cells@) =~= old(self).model().cells.remove(col_idx));
        }
        self.max_col = crate::grid::scan_max_key(&self.cells, self.max_col);
        proof {
            crate::grid::lemma_max_key_map_values(
                self.cells@,
                0,
                old(self).max_col,
                |c: Cell| c.model(),
            );
            assert forall|k: usize| #[trigger] self.model().cells.dom().contains(k) implies k
                <= self.model().max_col && cell_wf(self.model().cells[k]) by {
                assert(old(self).model().cells.dom().contains(k));
                crate::grid::lemma_max_key_in_range_ge(
                    self.model().cells,
                    0,
                    old(self).max_col,
                    k,
                );
            }
        }
    }

    /// Shift every occupied column at or above `at` one place right, in
    /// descending order so that no move lands on a not-yet-moved cell, then
    /// widen `max_col` by one.
    pub fn insert_column(&mut self, at: usize)
        requires
            old(self).wf(),
            old(self).model().max_col < usize::MAX,
        ensures
            final(self).wf(),
            final(self).model() == row_insert_column(old(self).model(), at),
    {
        proof {
            lemma_cells_view_bounded(old(self).cells@, old(self).model());
        }
        if at <= self.max_col {
            let mut i: usize = self.max_col + 1;
            proof {
                assert(self.cells@ =~= shift_up_partial(old(self).cells@, i - 1));
            }
            while i > at
                invariant
                    at <= i <= old(self).max_col + 1,
                    old(self).max_col < usize::MAX,
                    self.max_col == old(self).max_col,
                    self.cells@ == shift_up_partial(old(self).cells@, i - 1),
                decreases i,
            {
                i = i - 1;
                match self.cells.remove(&i) {
                    Some(cell) => {
                        self.cells.insert(i + 1, cell);
                        proof {
                            assert(self.cells@ =~= shift_up_partial(old(self).cells@, i - 1));
                        }
                    },
                    None => {
                        proof {
                            assert(self.cells@ =~= shift_up_partial(old(self).cells@, i - 1));
                        }
                    },
                }
            }
            proof {
                assert(self.cells@ =~= shift_up(old(self).cells@, at));
            }
        } else {
            proof {
                assert(self.cells@ =~= shift_up(old(self).cells@, at));
            }
        }
        self.max_col = self.max_col + 1;
        proof {
            crate::grid::lemma_map_values_shift_up(old(self).cells@, at, |c: Cell| c.model());
            assert forall|k: usize| #[trigger] self.model().cells.dom().contains(k) implies k
                <= self.model().max_col && cell_wf(self.model().cells[k]) by {
                if k < at {
                    assert(old(self).model().cells.dom().contains(k));
                } else {
                    assert(old(self).model().cells.dom().contains((k - 1) as usize));
                }
            }
        }
    }

    /// Remove the cell at `at`, shift every occupied column above `at` one
    /// place left in ascending order, and recompute `max_col` as the highest
    /// column still occupied (0 when none is).
    pub fn delete_column(&mut self, at: usize)
        requires
            old(self).wf(),
        ensures
            final(self).wf(),
            final(self).model() == row_delete_column(old(self).model(), at),
    {
        proof {
            lemma_cells_view_bounded(old(self).cells@, old(self).model());
        }
        self.cells.remove(&at);
        if at < self.max_col {
            let mut i: usize = at;
            proof {
                assert(self.cells@ =~= shift_down_partial(old(self).cells@, at, i + 1));
            }
            while i < self.max_col
                invariant
                    at <= i <= self.max_col,
                    self.max_col == old(self).max_col,
                    self.cells@ == shift_down_partial(old(self).cells@, at, i + 1),
                decreases self.max_col - i,
            {
                i = i + 1;
                match self.cells.remove(&i) {
                    Some(cell) => {
                        self.cells.insert(i - 1, cell);
                        proof {
                            assert(self.cells@ =~= shift_down_partial(
                                old(self).cells@,
                                at,
                                i + 1,
                            ));
                        }
                    },
                    None => {
                        proof {
                            assert(self.cells@ =~= shift_down_partial(
                                old(self).cells@,
                                at,
                                i + 1,
                            ));
                        }
                    },
                }
            }
            proof {
                assert(self.cells@ =~= shift_down(old(self).cells@, at));
            }
        } else {
            proof {
                assert(self.cells@ =~= shift_down(old(self).cells@, at));
            }
        }
        proof {
            crate::grid::lemma_map_values_shift_down(old(self).cells@, at, |c: Cell| c.model());
        }
        self.max_col = crate::grid::scan_max_key(&self.cells, self.max_col);
        proof {
            crate::grid::lemma_max_key_map_values(
                self.cells@,
                0,
                old(self).max_col,
                |c: Cell| c.model(),
            );
            assert forall|k: usize| #[trigger] self.model().cells.dom().contains(k) implies k
                <= self.model().max_col && cell_wf(self.model().cells[k]) by {
                if k < at {
                    assert(old(self).model().cells.dom().contains(k));
                } else {
                    assert(old(self).model().cells.dom().contains((k + 1) as usize));
                }
                crate::grid::lemma_max_key_in_range_ge(
                    self.model().cells,
                    0,
                    old(self).max_col,
                    k,
                );
            }
        }
    }
}

impl Default for Row {
    /// A row with no cells, as `Row::new`.
    fn default() -> (r: Row)
        ensures
            r.wf(),
            r.model() == row_empty(),
    {
        Row::new()
    }
}


/// Inserting a column preserves a row's well-formedness, provided the
/// recorded highest column can grow by one.
pub proof fn lemma_row_insert_column_wf(r: RowModel, at: usize)
    requires
        row_wf(r),
        r.max_col < usize::MAX,
    ensures
        row_wf(row_insert_column(r, at)),
{
    let out = row_insert_column(r, at);
    assert forall|k: usize| #[trigger] out.cells.dom().contains(k) implies k <= out.max_col
        && cell_wf(out.cells[k]) by {
        if k < at {
            assert(r.cells.dom().contains(k));
        } else {
            assert(r.cells.dom().contains((k - 1) as usize));
        }
    }
}

/// Deleting a column preserves a row's well-formedness.
pub proof fn lemma_row_delete_column_wf(r: RowModel, at: usize)
    requires
        row_wf(r),
    ensures
        row_wf(row_delete_column(r, at)),
{
    let out = row_delete_column(r, at);
    assert forall|k: usize| #[trigger] out.cells.dom().contains(k) implies k <= out.max_col
        && cell_wf(out.cells[k]) by {
        if k < at {
            assert(r.cells.dom().contains(k));
        } else {
            assert(k < usize::MAX && r.cells.dom().contains((k + 1) as usize));
        }
        crate::grid::lemma_max_key_in_range_ge(out.cells, 0, r.max_col, k);
    }
}

} // verus!
