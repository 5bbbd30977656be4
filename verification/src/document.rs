//! The sparse document: a mapping from row index to [`Row`], the highest
//! occupied row index, row and column insertion and deletion, and the name
//! of the file the document is bound to.

use vstd::prelude::*;

use std::collections::HashMap;
use std::collections::hash_map::Entry;

use crate::cell::{Cell, CellModel, cell_wf};
use crate::editor::Position;
use crate::grid::{max_key_in_range, shift_down, shift_down_partial, shift_up, shift_up_partial};
use crate::persist::{
    doc_text, doc_text_from, field_of, line_of, row_text_from, spec_from_text, split_chars,
    split_on, vecs_model, FIELD_SEP, RECORD_SEP,
};
use crate::row::{
    Row, RowModel, row_delete_column, row_empty, row_insert_at, row_insert_column, row_wf,
};

verus! {

broadcast use vstd::std_specs::hash::group_hash_axioms;

/// Mathematical model of a document: its rows by row index, the recorded
/// highest occupied row, and the file it is bound to.
#[verifier::ext_equal]
pub ghost struct DocModel {
    pub rows: Map<usize, RowModel>,
    pub max_row: usize,
    pub filename: Option<Seq<char>>,
}

/// A document is well formed when every occupied row index lies at or below
/// `max_row` and every row is itself well formed.
pub open spec fn doc_wf(d: DocModel) -> bool {
    forall|k: usize| #[trigger] d.rows.dom().contains(k) ==> k <= d.max_row && row_wf(d.rows[k])
}

/// Every row's recorded highest column lies below `usize::MAX`, so that a
/// column insertion cannot overflow it.
pub open spec fn doc_cols_below_max(d: DocModel) -> bool {
    forall|k: usize| #[trigger] d.rows.dom().contains(k) ==> d.rows[k].max_col < usize::MAX
}

/// The empty document, bound to no file.
pub open spec fn doc_empty() -> DocModel {
    DocModel { rows: Map::empty(), max_row: 0, filename: None }
}

/// The cell stored at a coordinate, if any.
pub open spec fn doc_cell_at(d: DocModel, col: usize, row: usize) -> Option<CellModel> {
    if d.rows.dom().contains(row) && d.rows[row].cells.dom().contains(col) {
        Some(d.rows[row].cells[col])
    } else {
        None
    }
}

/// Typing `c` at a coordinate: delegated to the row there, creating the row
/// first when the coordinate lies in an empty row.
pub open spec fn doc_insert_at(d: DocModel, col: usize, row: usize, c: char) -> DocModel {
    if d.rows.dom().contains(row) {
        DocModel { rows: d.rows.insert(row, row_insert_at(d.rows[row], col, c)), ..d }
    } else {
        DocModel {
            rows: d.rows.insert(row, row_insert_at(row_empty(), col, c)),
            max_row: if row > d.max_row {
                row
            } else {
                d.max_row
            },
            ..d
        }
    }
}

/// Replacing the cell at a coordinate of an occupied row.
pub open spec fn doc_update_cell(d: DocModel, col: usize, row: usize, cm: CellModel) -> DocModel {
    let r = d.rows[row];
    DocModel {
        rows: d.rows.insert(row, RowModel { cells: r.cells.insert(col, cm), max_col: r.max_col }),
        ..d
    }
}

/// Every occupied row at or above `at` moves down by one index, an empty row
/// appears at `at`, and `max_row` grows by one (or jumps to `at` when the
/// new row lands beyond it, so that it keeps naming the highest occupied
/// row).
pub open spec fn doc_insert_row(d: DocModel, at: usize) -> DocModel {
    DocModel {
        rows: shift_up(d.rows, at).insert(at, row_empty()),
        max_row: if at > d.max_row {
            at
        } else {
            (d.max_row + 1) as usize
        },
        ..d
    }
}

/// The row at `at` disappears, every occupied row above `at` moves up by one
/// index, and `max_row` is recomputed as the highest row still occupied (0
/// when the document becomes empty).
pub open spec fn doc_delete_row(d: DocModel, at: usize) -> DocModel {
    let rows = shift_down(d.rows, at);
    DocModel {
        rows,
        max_row: match max_key_in_range(rows, 0, d.max_row) {
            Some(k) => k,
            None => 0,
        },
        ..d
    }
}

/// A column insertion broadcast to every existing row.
pub open spec fn doc_insert_column(d: DocModel, at: usize) -> DocModel {
    DocModel { rows: d.rows.map_values(|r: RowModel| row_insert_column(r, at)), ..d }
}

/// A column deletion broadcast to every existing row.
pub open spec fn doc_delete_column(d: DocModel, at: usize) -> DocModel {
    DocModel { rows: d.rows.map_values(|r: RowModel| row_delete_column(r, at)), ..d }
}

/// Removing the cell at a coordinate; a no-op when the row does not exist.
/// The row itself stays, so `max_row` does not change.
pub open spec fn doc_clear_cell(d: DocModel, col: usize, row: usize) -> DocModel {
    if d.rows.dom().contains(row) {
        DocModel { rows: d.rows.insert(row, crate::row::row_clear_cell(d.rows[row], col)), ..d }
    } else {
        d
    }
}

/// Evaluating the cell at a coordinate: when the cell exists and its raw
/// text starts with the formula marker, the evaluator's non-empty result is
/// stored as the cell's evaluated display value; in every other case the
/// document is unchanged.
pub open spec fn doc_evaluate_cell(d: DocModel, col: usize, row: usize) -> DocModel {
    match doc_cell_at(d, col, row) {
        Some(cm) => {
            if cm.text.len() > 0 && cm.text[0] == '=' {
                let ev = crate::parser::spec_parse(Some(cm.text.drop_first()));
                if ev.len() > 0 {
                    doc_update_cell(d, col, row, crate::cell::cell_set_evaluated(cm, ev))
                } else {
                    d
                }
            } else {
                d
            }
        },
        None => d,
    }
}

/// Replacing a cell of an occupied row with a well-formed cell keeps the
/// document well formed.
pub proof fn lemma_doc_update_cell_wf(d: DocModel, col: usize, row: usize, cm: CellModel)
    requires
        doc_wf(d),
        doc_cell_at(d, col, row) is Some,
        cell_wf(cm),
    ensures
        doc_wf(doc_update_cell(d, col, row, cm)),
{
    let d2 = doc_update_cell(d, col, row, cm);
    assert forall|k: usize| #[trigger] d2.rows.dom().contains(k) implies k <= d2.max_row && row_wf(
        d2.rows[k],
    ) by {
        assert(d.rows.dom().contains(k));
        if k == row {
            let r2 = d2.rows[k];
            assert forall|c2: usize| #[trigger] r2.cells.dom().contains(c2) implies c2
                <= r2.max_col && cell_wf(r2.cells[c2]) by {
                assert(d.rows[k].cells.dom().contains(c2));
            }
        }
    }
}

/// The model of a map of exec rows.
pub open spec fn rows_model(m: Map<usize, Row>) -> Map<usize, RowModel> {
    m.map_values(|r: Row| r.model())
}

/// Intermediate state of the column-insertion loop: rows below `i` have the
/// column inserted, the rest are untouched.
pub open spec fn rows_prefix_insert_col(m: Map<usize, RowModel>, i: int, at: usize) -> Map<
    usize,
    RowModel,
> {
    Map::new(
        |k: usize| m.dom().contains(k),
        |k: usize|
            if k < i {
                row_insert_column(m[k], at)
            } else {
                m[k]
            },
    )
}

/// Intermediate state of the column-deletion loop: rows below `i` have the
/// column deleted, the rest are untouched.
pub open spec fn rows_prefix_delete_col(m: Map<usize, RowModel>, i: int, at: usize) -> Map<
    usize,
    RowModel,
> {
    Map::new(
        |k: usize| m.dom().contains(k),
        |k: usize|
            if k < i {
                row_delete_column(m[k], at)
            } else {
                m[k]
            },
    )
}

/// Transfers a document's well-formedness to the underlying map of exec
/// rows: every key is bounded by `max_row` and every row is well formed.
proof fn lemma_rows_view_bounded(m: Map<usize, Row>, d: DocModel)
    requires
        d.rows == rows_model(m),
        doc_wf(d),
    ensures
        forall|k: usize| #[trigger] m.dom().contains(k) ==> k <= d.max_row && row_wf(m[k].model()),
{
    assert forall|k: usize| #[trigger] m.dom().contains(k) implies k <= d.max_row && row_wf(
        m[k].model(),
    ) by {
        assert(d.rows.dom().contains(k));
        assert(d.rows[k] == m[k].model());
    }
}

/// Why a save request cannot be carried out.
#[derive(Clone, Copy, PartialEq, Eq, Structural, Debug)]
pub enum SaveError {
    /// The document is bound to no file name.
    NoDestination,
}

/// A sparse grid of rows, bound to an optional file name.
pub struct Document {
    rows: HashMap<usize, Row>,
    max_row: usize,
    pub filename: Option<String>,
}

/// The model of an optional file name.
pub open spec fn filename_model(f: &Option<String>) -> Option<Seq<char>> {
    match f {
        Some(s) => Some(s@),
        None => None,
    }
}

impl Document {
    /// The abstract value of this document.
    pub closed spec fn model(&self) -> DocModel {
        DocModel {
            rows: rows_model(self.rows@),
            max_row: self.max_row as usize,
            filename: filename_model(&self.filename),
        }
    }

    pub open spec fn wf(&self) -> bool {
        doc_wf(self.model())
    }

    /// An empty document bound to no file.
    pub fn new() -> (r: Document)
        ensures
            r.wf(),
            r.model() == doc_empty(),
    {
        let r = Document { rows: HashMap::new(), max_row: 0, filename: None };
        proof {
            assert(r.model().rows =~= doc_empty().rows);
        }
        r
    }

    /// The row at `row_idx`, if one has been created there.
    pub fn get_row(&self, row_idx: usize) -> (r: Option<&Row>)
        ensures
            match r {
                Some(row) => self.model().rows.dom().contains(row_idx) && row.model()
                    == self.model().rows[row_idx],
                None => !self.model().rows.dom().contains(row_idx),
            },
    {
        self.rows.get(&row_idx)
    }

    /// The file this document is bound to, if any.
    pub fn filename(&self) -> (r: &Option<String>)
        ensures
            filename_model(r) == self.model().filename,
    {
        &self.filename
    }

    /// Bind the document to a file name (or unbind it with `None`).
    pub fn set_filename(&mut self, filename: Option<String>)
        ensures
            final(self).model() == (DocModel {
                filename: filename_model(&filename),
                ..old(self).model()
            }),
            old(self).wf() ==> final(self).wf(),
    {
        self.filename = filename;
    }

    /// The recorded highest occupied row index.
    pub fn max_row(&self) -> (r: usize)
        ensures
            r == self.model().max_row,
    {
        self.max_row
    }

    /// Type `c` at `position`, creating the row and the cell there when they
    /// do not exist yet.
    pub fn insert_at(&mut self, position: &Position, c: char)
        requires
            old(self).wf(),
        ensures
            final(self).wf(),
            final(self).model() == doc_insert_at(old(self).model(), position.col, position.row, c),
    {
        match self.rows.remove(&position.row) {
            Some(mut row) => {
                proof {
                    assert(old(self).model().rows.dom().contains(position.row));
                    assert(row.model() == old(self).model().rows[position.row]);
                }
                row.insert_at(position.col, c);
                self.rows.insert(position.row, row);
                proof {
                    assert(self.model().rows =~= doc_insert_at(
                        old(self).model(),
                        position.col,
                        position.row,
                        c,
                    ).rows);
                }
            },
            None => {
                let mut row = Row::new();
                row.insert_at(position.col, c);
                self.rows.insert(position.row, row);
                if position.row > self.max_row {
                    self.max_row = position.row;
                }
                proof {
                    assert(self.model().rows =~= doc_insert_at(
                        old(self).model(),
                        position.col,
                        position.row,
                        c,
                    ).rows);
                }
            },
        }
        proof {
            assert forall|k: usize| #[trigger] self.model().rows.dom().contains(k) implies k
                <= self.model().max_row && row_wf(self.model().rows[k]) by {
                if k != position.row {
                    assert(old(self).model().rows.dom().contains(k));
                }
            }
        }
    }

    /// The cell at the coordinate, if one has been created there.
    pub fn get_cell(&self, col_idx: usize, row_idx: usize) -> (r: Option<&Cell>)
        ensures
            match r {
                Some(cell) => doc_cell_at(self.model(), col_idx, row_idx) == Some(cell.model()),
                None => doc_cell_at(self.model(), col_idx, row_idx) is None,
            },
    {
        if let Some(row) = self.get_row(row_idx) {
            return row.at(col_idx);
        }
        None
    }

    /// A mutable borrow of the cell at `position`, if one exists: the only
    /// path by which cursor movement and deletion reach a cell. The
    /// document's final value carries whatever the caller leaves in the
    /// borrowed cell.
    pub fn get_mut_cell(&mut self, position: &Position) -> (r: Option<&mut Cell>)
        ensures
            match r {
                Some(cell) => {
                    &&& doc_cell_at(old(self).model(), position.col, position.row) == Some(
                        cell.model(),
                    )
                    &&& final(self).model() == doc_update_cell(
                        old(self).model(),
                        position.col,
                        position.row,
                        final(cell).model(),
                    )
                },
                None => {
                    &&& doc_cell_at(old(self).model(), position.col, position.row) is None
                    &&& final(self).model() == old(self).model()
                },
            },
    {
        match self.rows.entry(position.row) {
            Entry::Occupied(e) => {
                let row_ref = e.into_mut();
                proof {
                    assert(old(self).model().rows.dom().contains(position.row));
                    crate::grid::lemma_map_values_insert(
                        old(self).rows@,
                        position.row,
                        *final(row_ref),
                        |r: Row| r.model(),
                    );
                    crate::grid::lemma_insert_same(rows_model(old(self).rows@), position.row);
                }
                row_ref.get_mut(position.col)
            },
            Entry::Vacant(_) => {
                proof {
                    crate::grid::lemma_map_values_remove(
                        old(self).rows@,
                        position.row,
                        |r: Row| r.model(),
                    );
                    assert(rows_model(old(self).rows@).remove(position.row) =~= rows_model(
                        old(self).rows@,
                    ));
                }
                None
            },
        }
    }

    /// Remove the cell at `position`; a no-op when the row does not exist.
    pub fn clear_cell(&mut self, pos: &Position)
        requires
            old(self).wf(),
        ensures
            final(self).wf(),
            final(self).model() == doc_clear_cell(old(self).model(), pos.col, pos.row),
    {
        match self.rows.remove(&pos.row) {
            Some(mut row) => {
                proof {
                    assert(old(self).model().rows.dom().contains(pos.row));
                    assert(row.model() == old(self).model().rows[pos.row]);
                }
                row.clear_cell(pos.col);
                self.rows.insert(pos.row, row);
                proof {
                    assert(self.model().rows =~= doc_clear_cell(
                        old(self).model(),
                        pos.col,
                        pos.row,
                    ).rows);
                }
            },
            None => {
                proof {
                    assert(self.model().rows =~= doc_clear_cell(
                        old(self).model(),
                        pos.col,
                        pos.row,
                    ).rows);
                }
            },
        }
        proof {
            assert forall|k: usize| #[trigger] self.model().rows.dom().contains(k) implies k
                <= self.model().max_row && row_wf(self.model().rows[k]) by {
                if k != pos.row {
                    assert(old(self).model().rows.dom().contains(k));
                }
            }
        }
    }

    /// Shift every occupied row at or above `at` one place down the sheet,
    /// in descending order so that no move lands on a not-yet-moved row,
    /// place an empty row at `at`, and widen `max_row` by one.
    pub fn insert_row(&mut self, at: usize)
        requires
            old(self).wf(),
            old(self).model().max_row < usize::MAX,
        ensures
            final(self).wf(),
            final(self).model() == doc_insert_row(old(self).model(), at),
    {
        proof {
            lemma_rows_view_bounded(old(self).rows@, old(self).model());
        }
        if at <= self.max_row {
            let mut i: usize = self.max_row + 1;
            proof {
                assert(self.rows@ =~= shift_up_partial(old(self).rows@, i - 1));
            }
            while i > at
                invariant
                    at <= i <= old(self).max_row + 1,
                    old(self).max_row < usize::MAX,
                    self.max_row == old(self).max_row,
                    self.filename == old(self).filename,
                    self.rows@ == shift_up_partial(old(self).rows@, i - 1),
                decreases i,
            {
                i = i - 1;
                match self.rows.remove(&i) {
                    Some(row) => {
                        self.rows.insert(i + 1, row);
                        proof {
                            assert(self.rows@ =~= shift_up_partial(old(self).rows@, i - 1));
                        }
                    },
                    None => {
                        proof {
                            assert(self.rows@ =~= shift_up_partial(old(self).rows@, i - 1));
                        }
                    },
                }
            }
            proof {
                assert(self.rows@ =~= shift_up(old(self).rows@, at));
            }
        } else {
            proof {
                assert(self.rows@ =~= shift_up(old(self).rows@, at));
            }
        }
        self.rows.insert(at, Row::new());
        self.max_row = if at > self.max_row {
            at
        } else {
            self.max_row + 1
        };
        proof {
            crate::grid::lemma_map_values_shift_up(old(self).rows@, at, |r: Row| r.model());
            assert(self.model().rows =~= doc_insert_row(old(self).model(), at).rows);
            assert forall|k: usize| #[trigger] self.model().rows.dom().contains(k) implies k
                <= self.model().max_row && row_wf(self.model().rows[k]) by {
                if k != at {
                    if k < at {
                        assert(old(self).model().rows.dom().contains(k));
                    } else {
                        assert(old(self).model().rows.dom().contains((k - 1) as usize));
                    }
                }
            }
        }
    }

    /// Remove the row at `at`, shift every occupied row above `at` one place
    /// up the sheet in ascending order, and recompute `max_row` as the
    /// highest row still occupied (0 when the document becomes empty).
    pub fn delete_row(&mut self, row: usize)
        requires
            old(self).wf(),
        ensures
            final(self).wf(),
            final(self).model() == doc_delete_row(old(self).model(), row),
    {
        proof {
            lemma_rows_view_bounded(old(self).rows@, old(self).model());
        }
        self.rows.remove(&row);
        if row < self.max_row {
            let mut i: usize = row;
            proof {
                assert(self.rows@ =~= shift_down_partial(old(self).rows@, row, i + 1));
            }
            while i < self.max_row
                invariant
                    row <= i <= self.max_row,
                    self.max_row == old(self).max_row,
                    self.filename == old(self).filename,
                    self.rows@ == shift_down_partial(old(self).rows@, row, i + 1),
                decreases self.max_row - i,
            {
                i = i + 1;
                match self.rows.remove(&i) {
                    Some(r) => {
                        self.rows.insert(i - 1, r);
                        proof {
                            assert(self.rows@ =~= shift_down_partial(
                                old(self).rows@,
                                row,
                                i + 1,
                            ));
                        }
                    },
                    None => {
                        proof {
                            assert(self.rows@ =~= shift_down_partial(
                                old(self).rows@,
                                row,
                                i + 1,
                            ));
                        }
                    },
                }
            }
            proof {
                assert(self.rows@ =~= shift_down(old(self).rows@, row));
            }
        } else {
            proof {
                assert(self.rows@ =~= shift_down(old(self).rows@, row));
            }
        }
        proof {
            crate::grid::lemma_map_values_shift_down(old(self).rows@, row, |r: Row| r.model());
        }
        self.max_row = crate::grid::scan_max_key(&self.rows, self.max_row);
        proof {
            crate::grid::lemma_max_key_map_values(
                self.rows@,
                0,
                old(self).max_row,
                |r: Row| r.model(),
            );
            assert(self.model().rows == shift_down(old(self).model().rows, row));
            assert(self.max_row == match max_key_in_range(
                self.model().rows,
                0,
                old(self).max_row,
            ) {
                Some(k) => k,
                None => 0usize,
            });
            assert forall|k: usize| #[trigger] self.model().rows.dom().contains(k) implies k
                <= self.model().max_row && row_wf(self.model().rows[k]) by {
                assert(shift_down(old(self).model().rows, row).dom().contains(k));
                if k < row {
                    assert(old(self).model().rows.dom().contains(k));
                    assert(k <= old(self).max_row);
                } else {
                    assert(k < usize::MAX);
                    assert(old(self).model().rows.dom().contains((k + 1) as usize));
                    assert((k + 1) as usize <= old(self).max_row);
                }
                let mk = max_key_in_range(self.model().rows, 0, old(self).max_row);
                crate::grid::lemma_max_key_in_range_ge(
                    self.model().rows,
                    0,
                    old(self).max_row,
                    k,
                );
                assert(mk is Some);
                assert(k <= mk.unwrap());
                assert(self.max_row == mk.unwrap());
            }
        }
    }

    /// Insert a column at `at` in every existing row.
    pub fn insert_column(&mut self, at: usize)
        requires
            old(self).wf(),
            doc_cols_below_max(old(self).model()),
        ensures
            final(self).wf(),
            final(self).model() == doc_insert_column(old(self).model(), at),
    {
        proof {
            lemma_rows_view_bounded(old(self).rows@, old(self).model());
        }
        let mut i: usize = 0;
        proof {
            assert(rows_model(self.rows@) =~= rows_prefix_insert_col(rows_model(old(self).rows@), 0, at));
        }
        loop
            invariant_except_break
                rows_model(self.rows@) == rows_prefix_insert_col(rows_model(old(self).rows@), i as int, at),
            invariant
                i <= self.max_row,
                self.max_row == old(self).max_row,
                self.filename == old(self).filename,
                old(self).wf(),
                doc_cols_below_max(old(self).model()),
            ensures
                self.max_row == old(self).max_row,
                self.filename == old(self).filename,
                rows_model(self.rows@) == rows_prefix_insert_col(
                    rows_model(old(self).rows@),
                    old(self).max_row + 1,
                    at,
                ),
            decreases self.max_row - i,
        {
            let ghost pre = self.rows@;
            match self.rows.remove(&i) {
                Some(mut r) => {
                    proof {
                        assert(rows_model(pre).dom().contains(i));
                        assert(old(self).model().rows.dom().contains(i));
                        assert(r.model() == rows_model(pre)[i]);
                        assert(r.model() == old(self).model().rows[i]);
                    }
                    r.insert_column(at);
                    self.rows.insert(i, r);
                    proof {
                        let m0 = rows_model(old(self).rows@);
                        let cur = rows_model(self.rows@);
                        assert(rows_model(pre) == rows_prefix_insert_col(m0, i as int, at));
                        assert(cur.dom() =~= m0.dom());
                        assert(cur[i] == row_insert_column(m0[i], at));
                        assert forall|k: usize| #[trigger] m0.dom().contains(k) && k != i implies
                            cur[k] == rows_model(pre)[k] by {
                            assert(self.rows@[k] == pre[k]);
                        }
                        assert(cur =~= rows_prefix_insert_col(m0, i + 1, at));
                    }
                },
                None => {
                    proof {
                        let m0 = rows_model(old(self).rows@);
                        assert(!pre.dom().contains(i));
                        assert(self.rows@ =~= pre);
                        assert(!rows_model(pre).dom().contains(i));
                        assert(!m0.dom().contains(i));
                        assert(rows_model(self.rows@) =~= rows_prefix_insert_col(m0, i + 1, at));
                    }
                },
            }
            if i == self.max_row {
                break ;
            }
            i = i + 1;
        }
        proof {
            lemma_rows_view_bounded(old(self).rows@, old(self).model());
            assert(self.model().rows =~= doc_insert_column(old(self).model(), at).rows);
            assert forall|k: usize| #[trigger] self.model().rows.dom().contains(k) implies k
                <= self.model().max_row && row_wf(self.model().rows[k]) by {
                assert(old(self).model().rows.dom().contains(k));
                crate::row::lemma_row_insert_column_wf(old(self).model().rows[k], at);
            }
        }
    }

    /// Delete the column at `at` in every existing row.
    pub fn delete_column(&mut self, at: usize)
        requires
            old(self).wf(),
        ensures
            final(self).wf(),
            final(self).model() == doc_delete_column(old(self).model(), at),
    {
        proof {
            lemma_rows_view_bounded(old(self).rows@, old(self).model());
        }
        let mut i: usize = 0;
        proof {
            assert(rows_model(self.rows@) =~= rows_prefix_delete_col(rows_model(old(self).rows@), 0, at));
        }
        loop
            invariant_except_break
                rows_model(self.rows@) == rows_prefix_delete_col(rows_model(old(self).rows@), i as int, at),
            invariant
                i <= self.max_row,
                self.max_row == old(self).max_row,
                self.filename == old(self).filename,
                old(self).wf(),
            ensures
                self.max_row == old(self).max_row,
                self.filename == old(self).filename,
                rows_model(self.rows@) == rows_prefix_delete_col(
                    rows_model(old(self).rows@),
                    old(self).max_row + 1,
                    at,
                ),
            decreases self.max_row - i,
        {
            let ghost pre = self.rows@;
            match self.rows.remove(&i) {
                Some(mut r) => {
                    proof {
                        assert(rows_model(pre).dom().contains(i));
                        assert(old(self).model().rows.dom().contains(i));
                        assert(r.model() == rows_model(pre)[i]);
                        assert(r.model() == old(self).model().rows[i]);
                    }
                    r.delete_column(at);
                    self.rows.insert(i, r);
                    proof {
                        let m0 = rows_model(old(self).rows@);
                        let cur = rows_model(self.rows@);
                        assert(rows_model(pre) == rows_prefix_delete_col(m0, i as int, at));
                        assert(cur.dom() =~= m0.dom());
                        assert(cur[i] == row_delete_column(m0[i], at));
                        assert forall|k: usize| #[trigger] m0.dom().contains(k) && k != i implies
                            cur[k] == rows_model(pre)[k] by {
                            assert(self.rows@[k] == pre[k]);
                        }
                        assert(cur =~= rows_prefix_delete_col(m0, i + 1, at));
                    }
                },
                None => {
                    proof {
                        let m0 = rows_model(old(self).rows@);
                        assert(!pre.dom().contains(i));
                        assert(self.rows@ =~= pre);
                        assert(!rows_model(pre).dom().contains(i));
                        assert(!m0.dom().contains(i));
                        assert(rows_model(self.rows@) =~= rows_prefix_delete_col(m0, i + 1, at));
                    }
                },
            }
            if i == self.max_row {
                break ;
            }
            i = i + 1;
        }
        proof {
            lemma_rows_view_bounded(old(self).rows@, old(self).model());
            assert(self.model().rows =~= doc_delete_column(old(self).model(), at).rows);
            assert forall|k: usize| #[trigger] self.model().rows.dom().contains(k) implies k
                <= self.model().max_row && row_wf(self.model().rows[k]) by {
                assert(old(self).model().rows.dom().contains(k));
                crate::row::lemma_row_delete_column_wf(old(self).model().rows[k], at);
            }
        }
    }

    /// Evaluate the cell at `pos`: when its raw text starts with the formula
    /// marker, parse the rest and store the evaluator's non-empty result as
    /// the cell's evaluated display value. A cell without the marker, an
    /// absent cell, and an empty result all leave the document unchanged.
    pub fn evaluate_current_cell(&mut self, pos: &Position)
        requires
            old(self).wf(),
        ensures
            final(self).wf(),
            final(self).model() == doc_evaluate_cell(old(self).model(), pos.col, pos.row),
    {
        let mut formula: Option<Vec<char>> = None;
        if let Some(cell) = self.get_cell(pos.col, pos.row) {
            let raw = cell.raw_text();
            if raw.len() > 0 && raw[0] == '=' {
                let mut rest: Vec<char> = Vec::new();
                let mut i: usize = 1;
                while i < raw.len()
                    invariant
                        1 <= i <= raw@.len(),
                        rest@ == raw@.subrange(1, i as int),
                    decreases raw@.len() - i,
                {
                    rest.push(raw[i]);
                    i = i + 1;
                    proof {
                        assert(rest@ =~= raw@.subrange(1, i as int));
                    }
                }
                proof {
                    assert(raw@.subrange(1, raw@.len() as int) =~= raw@.drop_first());
                }
                formula = Some(rest);
            }
        }
        let evaluated = crate::parser::parse(
            match &formula {
                Some(v) => Some(v),
                None => None,
            },
            self,
        );
        if evaluated.len() == 0 {
            return ;
        }
        match self.get_mut_cell(pos) {
            Some(cell) => {
                cell.set_evaluated(evaluated);
            },
            None => {},
        }
        proof {
            let om = old(self).model();
            assert forall|k: usize| #[trigger] self.model().rows.dom().contains(k) implies k
                <= self.model().max_row && row_wf(self.model().rows[k]) by {
                assert(om.rows.dom().contains(k));
                if k == pos.row {
                    let r2 = self.model().rows[k];
                    assert forall|c2: usize| #[trigger] r2.cells.dom().contains(c2) implies c2
                        <= r2.max_col && cell_wf(r2.cells[c2]) by {
                        assert(om.rows[k].cells.dom().contains(c2));
                    }
                }
            }
        }
    }

    /// The document serialized to the persisted text format: rows
    /// `0 ..= max_row`, each cell's raw text (not the evaluated text)
    /// followed by the field separator, each row closed by the record
    /// separator.
    pub fn to_text(&self) -> (out: Vec<char>)
        requires
            self.wf(),
        ensures
            out@ == doc_text(self.model()),
    {
        let ghost d = self.model();
        let mut out: Vec<char> = Vec::new();
        proof {
            assert(out@ + doc_text_from(d, 0) =~= doc_text(d));
        }
        let mut row: usize = 0;
        loop
            invariant_except_break
                out@ + doc_text_from(d, row as int) == doc_text(d),
            invariant
                row <= self.max_row,
                self.wf(),
                d == self.model(),
            ensures
                out@ == doc_text(d),
            decreases self.max_row - row,
        {
            let ghost out0 = out@;
            match self.get_row(row) {
                Some(r) => {
                    let ghost rm = d.rows[row as usize];
                    proof {
                        assert(doc_text_from(d, row as int) == line_of(d, row) + seq![RECORD_SEP]
                            + doc_text_from(d, row + 1));
                        assert(line_of(d, row) == row_text_from(rm, 0));
                        assert(out@ + row_text_from(rm, 0) + seq![RECORD_SEP] + doc_text_from(
                            d,
                            row + 1,
                        ) =~= out0 + doc_text_from(d, row as int));
                    }
                    let maxc = r.max_col();
                    let mut col: usize = 0;
                    loop
                        invariant_except_break
                            out@ + row_text_from(rm, col as int) + seq![RECORD_SEP]
                                + doc_text_from(d, row + 1) == doc_text(d),
                        invariant
                            col <= maxc,
                            maxc == rm.max_col,
                            r.model() == rm,
                            row <= d.max_row,
                        ensures
                            out@ + seq![RECORD_SEP] + doc_text_from(d, row + 1) == doc_text(d),
                        decreases maxc - col,
                    {
                        let ghost out1 = out@;
                        proof {
                            assert(row_text_from(rm, col as int) == field_of(rm, col) + seq![
                                FIELD_SEP,
                            ] + row_text_from(rm, col + 1));
                        }
                        match r.at(col) {
                            Some(cell) => {
                                proof {
                                    assert(cell.model() == rm.cells[col]);
                                    assert(field_of(rm, col) == cell.model().text);
                                }
                                crate::text::push_chars(&mut out, cell.raw_text());
                            },
                            None => {
                                proof {
                                    assert(field_of(rm, col) =~= Seq::<char>::empty());
                                    assert(out@ =~= out1 + field_of(rm, col));
                                }
                            },
                        }
                        out.push(FIELD_SEP);
                        proof {
                            assert(out@ =~= out1 + field_of(rm, col) + seq![FIELD_SEP]);
                            assert(out@ + row_text_from(rm, col + 1) + seq![RECORD_SEP]
                                + doc_text_from(d, row + 1) =~= out1 + row_text_from(
                                rm,
                                col as int,
                            ) + seq![RECORD_SEP] + doc_text_from(d, row + 1));
                        }
                        if col == maxc {
                            proof {
                                assert(row_text_from(rm, col + 1) =~= Seq::<char>::empty());
                                assert(out@ + seq![RECORD_SEP] + doc_text_from(d, row + 1)
                                    =~= out@ + row_text_from(rm, col + 1) + seq![RECORD_SEP]
                                    + doc_text_from(d, row + 1));
                            }
                            break ;
                        }
                        col = col + 1;
                    }
                },
                None => {
                    proof {
                        assert(doc_text_from(d, row as int) == line_of(d, row) + seq![RECORD_SEP]
                            + doc_text_from(d, row + 1));
                        assert(line_of(d, row) =~= Seq::<char>::empty());
                        assert(out@ + seq![RECORD_SEP] + doc_text_from(d, row + 1) =~= out0
                            + doc_text_from(d, row as int));
                    }
                },
            }
            let ghost out2 = out@;
            out.push(RECORD_SEP);
            proof {
                assert(out@ + doc_text_from(d, row + 1) =~= out2 + seq![RECORD_SEP]
                    + doc_text_from(d, row + 1));
            }
            if row == self.max_row {
                proof {
                    assert(doc_text_from(d, row + 1) =~= Seq::<char>::empty());
                    assert(out@ =~= out@ + doc_text_from(d, row + 1));
                }
                break ;
            }
            row = row + 1;
        }
        out
    }

    /// The document parsed from a persisted text, bound to `filename`:
    /// records split on the record separator, fields on the field separator,
    /// every non-empty field becoming a cell with that literal text.
    pub fn from_text(contents: &Vec<char>, filename: Option<String>) -> (r: Document)
        ensures
            r.wf(),
            r.model() == spec_from_text(contents@, filename_model(&filename)),
    {
        let lines = split_chars(contents, RECORD_SEP);
        let mut doc = Document { rows: HashMap::new(), max_row: 0, filename };
        let ghost fname = filename_model(&doc.filename);
        proof {
            assert(vecs_model(lines@).subrange(0, 0) =~= Seq::<Seq<char>>::empty());
            assert(rows_model(doc.rows@) =~= Map::<usize, RowModel>::empty());
            assert(doc.model() == crate::persist::doc_of_lines(
                vecs_model(lines@).subrange(0, 0),
                fname,
            ));
        }
        let mut i: usize = 0;
        while i < lines.len()
            invariant
                i <= lines@.len(),
                vecs_model(lines@) == split_on(contents@, RECORD_SEP),
                doc.model() == crate::persist::doc_of_lines(
                    vecs_model(lines@).subrange(0, i as int),
                    fname,
                ),
                doc.wf(),
                doc.model().max_row <= i,
                fname == filename_model(&doc.filename),
            decreases lines@.len() - i,
        {
            let ghost dl0 = crate::persist::doc_of_lines(
                vecs_model(lines@).subrange(0, i as int),
                fname,
            );
            proof {
                assert(vecs_model(lines@).subrange(0, i + 1).drop_last() =~= vecs_model(
                    lines@,
                ).subrange(0, i as int));
                assert(vecs_model(lines@).subrange(0, i + 1).last() == lines@[i as int]@);
            }
            if lines[i].len() > 0 {
                let fields = split_chars(&lines[i], FIELD_SEP);
                let mut row = Row::new();
                proof {
                    assert(vecs_model(fields@).subrange(0, 0) =~= Seq::<Seq<char>>::empty());
                    assert(row.model() == crate::persist::row_of_fields(
                        vecs_model(fields@).subrange(0, 0),
                    ));
                }
                let mut j: usize = 0;
                while j < fields.len()
                    invariant
                        j <= fields@.len(),
                        row.model() == crate::persist::row_of_fields(
                            vecs_model(fields@).subrange(0, j as int),
                        ),
                        row.wf(),
                    decreases fields@.len() - j,
                {
                    proof {
                        assert(vecs_model(fields@).subrange(0, j + 1).drop_last() =~= vecs_model(
                            fields@,
                        ).subrange(0, j as int));
                        assert(vecs_model(fields@).subrange(0, j + 1).last() == fields@[j as int]@);
                    }
                    if fields[j].len() > 0 {
                        let text = crate::text::copy_chars(&fields[j]);
                        row.init_cell_at(j, text);
                    }
                    j = j + 1;
                }
                proof {
                    assert(vecs_model(fields@).subrange(0, fields@.len() as int) =~= vecs_model(
                        fields@,
                    ));
                    assert(row.model() == crate::persist::row_of_fields(
                        split_on(lines@[i as int]@, FIELD_SEP),
                    ));
                }
                let ghost pre = doc.rows@;
                doc.rows.insert(i, row);
                doc.max_row = i;
                proof {
                    assert(rows_model(doc.rows@) =~= rows_model(pre).insert(
                        i,
                        crate::persist::row_of_fields(split_on(lines@[i as int]@, FIELD_SEP)),
                    ));
                    assert(doc.model() == crate::persist::doc_of_lines(
                        vecs_model(lines@).subrange(0, i + 1),
                        fname,
                    ));
                    assert forall|k: usize| #[trigger]
                        doc.model().rows.dom().contains(k) implies k <= doc.model().max_row
                        && row_wf(doc.model().rows[k]) by {
                        if k != i {
                            assert(dl0.rows.dom().contains(k));
                        }
                    }
                }
            } else {
                proof {
                    assert(lines@[i as int]@.len() == 0);
                    assert(doc.model() == crate::persist::doc_of_lines(
                        vecs_model(lines@).subrange(0, i + 1),
                        fname,
                    ));
                }
            }
            i = i + 1;
        }
        proof {
            assert(vecs_model(lines@).subrange(0, lines@.len() as int) =~= vecs_model(lines@));
        }
        doc
    }

    /// What saving needs: the bound file name and the serialized content, or
    /// the no-destination error when the document is bound to no file.
    pub fn save_payload(&self) -> (r: Result<(String, String), SaveError>)
        requires
            self.wf(),
        ensures
            match r {
                Ok(p) => self.model().filename == Some(p.0@) && p.1@ == doc_text(self.model()),
                Err(e) => e == SaveError::NoDestination && self.model().filename is None,
            },
    {
        match &self.filename {
            Some(name) => {
                let content_chars = self.to_text();
                let content = crate::text::chars_to_string(&content_chars);
                Ok((name.clone(), content))
            },
            None => Err(SaveError::NoDestination),
        }
    }
}

impl Default for Document {
    /// An empty document, as `Document::new`.
    fn default() -> (r: Document)
        ensures
            r.wf(),
            r.model() == doc_empty(),
    {
        Document::new()
    }
}

} // verus!
