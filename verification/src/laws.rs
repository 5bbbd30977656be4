//! The library's general laws: properties that relate several operations,
//! stated over the models and proved once for all inputs.

use vstd::prelude::*;

use crate::cell::{
    cell_effective, cell_insert, cell_move, cell_of_char, cell_view_seq, cell_wf, CellModel,
    Direction, CELL_VIEW_LEN,
};
use crate::document::{
    doc_cell_at, doc_cols_below_max, doc_delete_column, doc_delete_row, doc_empty,
    doc_insert_at, doc_insert_column, doc_insert_row, doc_wf, DocModel,
};
use crate::row::{row_delete_column, row_empty, row_insert_column, row_wf, RowModel};

verus! {

/// One typing session: each element is the column, the row and the character
/// of one `insert_at` call, oldest first.
pub open spec fn doc_apply_inserts(d: DocModel, ops: Seq<(usize, usize, char)>) -> DocModel
    decreases ops.len(),
{
    if ops.len() == 0 {
        d
    } else {
        doc_insert_at(
            doc_apply_inserts(d, ops.drop_last()),
            ops.last().0,
            ops.last().1,
            ops.last().2,
        )
    }
}

/// The characters a session types at one coordinate, in typing order.
pub open spec fn chars_at(ops: Seq<(usize, usize, char)>, col: usize, row: usize) -> Seq<char>
    decreases ops.len(),
{
    if ops.len() == 0 {
        Seq::empty()
    } else {
        let rest = chars_at(ops.drop_last(), col, row);
        if ops.last().0 == col && ops.last().1 == row {
            rest.push(ops.last().2)
        } else {
            rest
        }
    }
}

/// A document whose every cell was produced by typing alone: no evaluated
/// values, every cursor at the end of its text, and at every coordinate
/// exactly the characters the session typed there.
pub open spec fn tracks_inserts(d: DocModel, ops: Seq<(usize, usize, char)>) -> bool {
    forall|c: usize, r: usize|
        match #[trigger] doc_cell_at(d, c, r) {
            Some(cm) => cm.eval.len() == 0 && cm.cursor == cm.text.len() && cm.text == chars_at(
                ops,
                c,
                r,
            ) && cm.text.len() > 0,
            None => chars_at(ops, c, r).len() == 0,
        }
}

proof fn lemma_insert_sequence_rec(ops: Seq<(usize, usize, char)>)
    ensures
        tracks_inserts(doc_apply_inserts(doc_empty(), ops), ops),
    decreases ops.len(),
{
    if ops.len() == 0 {
        assert forall|c: usize, r: usize|
            match #[trigger] doc_cell_at(doc_empty(), c, r) {
                Some(cm) => false,
                None => chars_at(ops, c, r).len() == 0,
            } by {}
    } else {
        let rest = ops.drop_last();
        let (col, row, ch) = ops.last();
        lemma_insert_sequence_rec(rest);
        let dr = doc_apply_inserts(doc_empty(), rest);
        let d = doc_insert_at(dr, col, row, ch);
        assert forall|c: usize, r: usize|
            match #[trigger] doc_cell_at(d, c, r) {
                Some(cm) => cm.eval.len() == 0 && cm.cursor == cm.text.len() && cm.text
                    == chars_at(ops, c, r) && cm.text.len() > 0,
                None => chars_at(ops, c, r).len() == 0,
            } by {
            assert(match doc_cell_at(dr, c, r) {
                Some(cm) => cm.eval.len() == 0 && cm.cursor == cm.text.len() && cm.text
                    == chars_at(rest, c, r) && cm.text.len() > 0,
                None => chars_at(rest, c, r).len() == 0,
            });
            if c == col && r == row {
                match doc_cell_at(dr, c, r) {
                    Some(cm) => {
                        assert(doc_cell_at(d, c, r) == Some(cell_insert(cm, ch)));
                        assert(cm.text.insert(cm.text.len() as int, ch) =~= cm.text.push(ch));
                    },
                    None => {
                        assert(doc_cell_at(d, c, r) == Some(cell_of_char(ch)));
                        assert(Seq::<char>::empty().push(ch) =~= seq![ch]);
                    },
                }
            } else {
                assert(doc_cell_at(d, c, r) == doc_cell_at(dr, c, r));
                assert(chars_at(ops, c, r) == chars_at(rest, c, r));
            }
        }
    }
}

/// For every sequence of `insert_at` calls applied to the empty document, the
/// cell at a coordinate holds exactly the concatenation of the characters
/// inserted there, in cursor (typing) order, and a coordinate never written
/// holds no cell.
pub proof fn lemma_insert_at_sequence(ops: Seq<(usize, usize, char)>, col: usize, row: usize)
    ensures
        ({
            let d = doc_apply_inserts(doc_empty(), ops);
            let cs = chars_at(ops, col, row);
            match doc_cell_at(d, col, row) {
                Some(cm) => cm.text == cs && cm.cursor == cs.len() && cm.eval.len() == 0,
                None => cs.len() == 0,
            }
        }),
{
    lemma_insert_sequence_rec(ops);
    let d = doc_apply_inserts(doc_empty(), ops);
    assert(match doc_cell_at(d, col, row) {
        Some(cm) => cm.eval.len() == 0 && cm.cursor == cm.text.len() && cm.text == chars_at(
            ops,
            col,
            row,
        ) && cm.text.len() > 0,
        None => chars_at(ops, col, row).len() == 0,
    });
}

/// Inserting a row at `at` and then deleting the row at `at` restores every
/// row of the document, and with it the content at every coordinate.
pub proof fn lemma_insert_then_delete_row(d: DocModel, at: usize)
    requires
        doc_wf(d),
        d.max_row < usize::MAX,
    ensures
        doc_delete_row(doc_insert_row(d, at), at).rows == d.rows,
{
    assert forall|k: usize| #[trigger] d.rows.dom().contains(k) implies k < usize::MAX by {}
    crate::grid::lemma_shift_up_insert_down(d.rows, at, row_empty());
}

/// Inserting a column at `at` and then deleting the column at `at` restores
/// every cell of a row.
pub proof fn lemma_insert_then_delete_column(r: RowModel, at: usize)
    requires
        row_wf(r),
        r.max_col < usize::MAX,
    ensures
        row_delete_column(row_insert_column(r, at), at).cells == r.cells,
{
    assert forall|k: usize| #[trigger] r.cells.dom().contains(k) implies k < usize::MAX by {}
    crate::grid::lemma_shift_up_down(r.cells, at);
}

/// The document-wide form: inserting and then deleting a column at the same
/// index is the identity on the content of every row.
pub proof fn lemma_doc_insert_then_delete_column(d: DocModel, at: usize)
    requires
        doc_wf(d),
        doc_cols_below_max(d),
    ensures
        ({
            let d2 = doc_delete_column(doc_insert_column(d, at), at);
            &&& d2.rows.dom() == d.rows.dom()
            &&& forall|k: usize| #[trigger] d.rows.dom().contains(k) ==> d2.rows[k].cells
                == d.rows[k].cells
        }),
{
    let d2 = doc_delete_column(doc_insert_column(d, at), at);
    assert(d2.rows.dom() =~= d.rows.dom());
    assert forall|k: usize| #[trigger] d.rows.dom().contains(k) implies d2.rows[k].cells
        == d.rows[k].cells by {
        assert(d2.rows[k] == row_delete_column(row_insert_column(d.rows[k], at), at));
        lemma_insert_then_delete_column(d.rows[k], at);
    }
}

/// What a cell shows is never longer than the fixed window length.
pub proof fn lemma_view_bounded(m: CellModel)
    ensures
        cell_view_seq(m).len() <= CELL_VIEW_LEN,
{
}

/// A cell whose window sits at the start and whose effective text fits the
/// window shows the whole text, and cursor movement neither shifts the
/// window nor hides any of it.
pub proof fn lemma_view_full_when_short(m: CellModel, key: Direction)
    requires
        cell_wf(m),
        m.eval.len() == 0,
        m.window == 0,
        cell_effective(m).len() <= CELL_VIEW_LEN,
    ensures
        cell_view_seq(m) == cell_effective(m),
        cell_move(m, key).window == 0,
        cell_view_seq(cell_move(m, key)) == cell_effective(cell_move(m, key)),
{
    assert(cell_view_seq(m) =~= cell_effective(m));
    assert(cell_view_seq(cell_move(m, key)) =~= cell_effective(cell_move(m, key)));
}

} // verus!
