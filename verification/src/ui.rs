//! The one piece of rendering logic with content of its own: whether a cell
//! should be highlighted for the active search. Drawing itself lives with
//! the terminal layer, which consumes only `view` strings and this
//! predicate.

use vstd::prelude::*;

use crate::cell::cell_effective;
use crate::editor::{Editor, EditorModel, SearchMode};
use crate::text::{contains_chars, contains_seq};

verus! {

/// A cell is highlighted when a search is active, the cell lies in the
/// searched row or column (or the search is global), and the search term
/// occurs in the cell's displayed text.
pub open spec fn spec_should_highlight(
    m: EditorModel,
    text: Seq<char>,
    col: usize,
    row: usize,
) -> bool {
    &&& m.search_mode != SearchMode::Inactive
    &&& m.search_mode != SearchMode::Error
    &&& (m.search_mode == SearchMode::Row ==> row == m.cursor.row)
    &&& (m.search_mode == SearchMode::Column ==> col == m.cursor.col)
    &&& contains_seq(text, cell_effective(m.search_text))
}

/// Whether the cell at `(col, row)`, displaying `text`, matches the active
/// search.
pub fn should_highlight_cell(editor: &Editor, text: &Vec<char>, col: usize, row: usize) -> (r:
    bool)
    ensures
        r == spec_should_highlight(editor.model(), text@, col, row),
{
    if editor.search_mode == SearchMode::Inactive || editor.search_mode == SearchMode::Error {
        return false;
    }
    if editor.search_mode == SearchMode::Row && row != editor.cursor_position.row {
        return false;
    }
    if editor.search_mode == SearchMode::Column && col != editor.cursor_position.col {
        return false;
    }
    contains_chars(text, editor.search_text.to_str())
}

} // verus!
