//! Grid behavior: sparse typing, row and column insertion and deletion, and
//! the recorded bounds.

use sparsesheet::document::Document;
use sparsesheet::editor::Position;
use sparsesheet::row::Row;

fn pos(col: usize, row: usize) -> Position {
    Position { col, row }
}

fn type_at(d: &mut Document, col: usize, row: usize, text: &str) {
    for c in text.chars() {
        d.insert_at(&pos(col, row), c);
    }
}

fn text_at(d: &Document, col: usize, row: usize) -> Option<String> {
    d.get_cell(col, row).map(|c| c.to_string())
}

#[test]
fn typing_at_origin_concatenates() {
    let mut d = Document::new();
    type_at(&mut d, 0, 0, "char");
    assert_eq!(text_at(&d, 0, 0), Some(String::from("char")));
}

#[test]
fn coordinates_never_written_hold_no_cell() {
    let mut d = Document::new();
    type_at(&mut d, 3, 5, "x");
    assert!(d.get_cell(0, 0).is_none());
    assert!(d.get_cell(3, 4).is_none());
    assert!(d.get_cell(4, 5).is_none());
    assert_eq!(text_at(&d, 3, 5), Some(String::from("x")));
}

#[test]
fn sparse_typing_tracks_bounds() {
    let mut d = Document::new();
    type_at(&mut d, 7, 11, "a");
    type_at(&mut d, 2, 3, "b");
    assert_eq!(d.max_row(), 11);
    assert_eq!(d.get_row(11).unwrap().max_col(), 7);
    assert_eq!(d.get_row(3).unwrap().max_col(), 2);
}

#[test]
fn insert_row_shifts_rows_down() {
    let mut d = Document::new();
    type_at(&mut d, 0, 0, "top");
    type_at(&mut d, 0, 1, "bottom");
    d.insert_row(1);
    assert_eq!(text_at(&d, 0, 0), Some(String::from("top")));
    assert!(d.get_cell(0, 1).is_none());
    assert_eq!(text_at(&d, 0, 2), Some(String::from("bottom")));
    assert_eq!(d.max_row(), 2);
}

#[test]
fn delete_row_shifts_rows_up() {
    let mut d = Document::new();
    type_at(&mut d, 0, 0, "a");
    type_at(&mut d, 0, 1, "b");
    type_at(&mut d, 0, 2, "c");
    d.delete_row(1);
    assert_eq!(text_at(&d, 0, 0), Some(String::from("a")));
    assert_eq!(text_at(&d, 0, 1), Some(String::from("c")));
    assert!(d.get_cell(0, 2).is_none());
    assert_eq!(d.max_row(), 1);
}

#[test]
fn insert_then_delete_row_restores_content() {
    let mut d = Document::new();
    type_at(&mut d, 0, 0, "a");
    type_at(&mut d, 2, 1, "b");
    d.insert_row(1);
    d.delete_row(1);
    assert_eq!(text_at(&d, 0, 0), Some(String::from("a")));
    assert_eq!(text_at(&d, 2, 1), Some(String::from("b")));
}

#[test]
fn empty_row_then_sparse_insert_then_delete() {
    // An empty document gains an empty row, a cell lands below it, and
    // deleting the empty row pulls the cell up to the origin.
    let mut d = Document::new();
    d.insert_row(0);
    d.insert_at(&pos(0, 1), 'x');
    d.delete_row(0);
    assert_eq!(text_at(&d, 0, 0), Some(String::from("x")));
}

#[test]
fn insert_column_shifts_cells_right() {
    let mut d = Document::new();
    type_at(&mut d, 0, 0, "a");
    type_at(&mut d, 1, 0, "b");
    type_at(&mut d, 0, 1, "c");
    d.insert_column(1);
    assert_eq!(text_at(&d, 0, 0), Some(String::from("a")));
    assert!(d.get_cell(1, 0).is_none());
    assert_eq!(text_at(&d, 2, 0), Some(String::from("b")));
    assert_eq!(text_at(&d, 0, 1), Some(String::from("c")));
}

#[test]
fn delete_column_shifts_cells_left() {
    let mut d = Document::new();
    type_at(&mut d, 0, 0, "a");
    type_at(&mut d, 1, 0, "b");
    type_at(&mut d, 2, 0, "c");
    d.delete_column(1);
    assert_eq!(text_at(&d, 0, 0), Some(String::from("a")));
    assert_eq!(text_at(&d, 1, 0), Some(String::from("c")));
    assert!(d.get_cell(2, 0).is_none());
    assert_eq!(d.get_row(0).unwrap().max_col(), 1);
}

#[test]
fn insert_then_delete_column_restores_row_content() {
    let mut d = Document::new();
    type_at(&mut d, 0, 0, "a");
    type_at(&mut d, 3, 0, "b");
    d.insert_column(2);
    d.delete_column(2);
    assert_eq!(text_at(&d, 0, 0), Some(String::from("a")));
    assert_eq!(text_at(&d, 3, 0), Some(String::from("b")));
}

#[test]
fn clear_cell_removes_and_recomputes_bound() {
    let mut d = Document::new();
    type_at(&mut d, 0, 0, "a");
    type_at(&mut d, 4, 0, "b");
    d.clear_cell(&pos(4, 0));
    assert!(d.get_cell(4, 0).is_none());
    assert_eq!(text_at(&d, 0, 0), Some(String::from("a")));
    // The highest occupied column is recomputed after the removal.
    assert_eq!(d.get_row(0).unwrap().max_col(), 0);
}

#[test]
fn clear_cell_in_missing_row_is_a_no_op() {
    let mut d = Document::new();
    d.clear_cell(&pos(3, 3));
    assert!(d.get_cell(3, 3).is_none());
    assert_eq!(d.max_row(), 0);
}

#[test]
fn row_insert_at_existing_cell_splices() {
    let mut r = Row::new();
    r.insert_at(2, 'a');
    r.insert_at(2, 'b');
    assert_eq!(r.at(2).unwrap().to_string(), "ab");
    assert_eq!(r.max_col(), 2);
    assert!(r.at(0).is_none());
}

#[test]
fn row_get_mut_edits_in_place() {
    let mut r = Row::new();
    r.insert_at(1, 'a');
    r.get_mut(1).unwrap().insert('b');
    assert_eq!(r.at(1).unwrap().to_string(), "ab");
    assert!(r.get_mut(0).is_none());
}

#[test]
fn get_mut_cell_reaches_the_cell() {
    let mut d = Document::new();
    type_at(&mut d, 1, 2, "a");
    d.get_mut_cell(&pos(1, 2)).unwrap().insert('z');
    assert_eq!(text_at(&d, 1, 2), Some(String::from("az")));
    assert!(d.get_mut_cell(&pos(0, 0)).is_none());
}

#[test]
fn row_init_cell_at_overwrites() {
    let mut r = Row::new();
    r.init_cell_at(3, vec!['o', 'l', 'd']);
    r.init_cell_at(3, vec!['n', 'e', 'w']);
    assert_eq!(r.at(3).unwrap().to_string(), "new");
    assert_eq!(r.max_col(), 3);
}
