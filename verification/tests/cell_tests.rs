//! Cell-level behavior: typing, cursor movement, the view window, deletion,
//! and evaluated display values.

use sparsesheet::cell::{Cell, DeleteKey, Direction, CELL_VIEW_LEN};

#[test]
fn fresh_cell_from_char_holds_that_char() {
    let c = Cell::from_char('x');
    assert_eq!(c.to_string(), "x");
    assert_eq!(c.len(), 1);
    assert_eq!(c.view(), "x");
}

#[test]
fn typing_appends_in_cursor_order() {
    let mut c = Cell::from_char('c');
    c.insert('h');
    c.insert('a');
    c.insert('r');
    assert_eq!(c.to_string(), "char");
    assert_eq!(c.to_str(), &vec!['c', 'h', 'a', 'r']);
}

#[test]
fn insert_splices_at_cursor() {
    let mut c = Cell::from_char('b');
    c.move_cursor(Direction::Left);
    c.insert('a');
    assert_eq!(c.to_string(), "ab");
}

#[test]
fn cursor_saturates_at_both_ends() {
    let mut c = Cell::from_char('a');
    c.move_cursor(Direction::Left);
    c.move_cursor(Direction::Left);
    c.insert('z');
    // The cursor stopped at 0, so 'z' lands in front.
    assert_eq!(c.to_string(), "za");
    let mut d = Cell::from_char('a');
    d.move_cursor(Direction::Right);
    d.move_cursor(Direction::Right);
    d.insert('b');
    assert_eq!(d.to_string(), "ab");
}

#[test]
fn delete_forward_removes_under_cursor() {
    let mut c = Cell::from_text(vec!['a', 'b', 'c']);
    c.move_cursor(Direction::Left);
    c.move_cursor(Direction::Left);
    c.handle_delete(DeleteKey::Forward);
    assert_eq!(c.to_string(), "ac");
    // Deleting at the end of the text is silently ignored.
    let mut d = Cell::from_text(vec!['a']);
    d.handle_delete(DeleteKey::Forward);
    assert_eq!(d.to_string(), "a");
}

#[test]
fn delete_backward_removes_before_cursor() {
    let mut c = Cell::from_text(vec!['a', 'b', 'c']);
    c.handle_delete(DeleteKey::Backward);
    assert_eq!(c.to_string(), "ab");
    c.handle_delete(DeleteKey::Backward);
    c.handle_delete(DeleteKey::Backward);
    assert_eq!(c.to_string(), "");
    // Backspace at the start of the text is silently ignored.
    c.handle_delete(DeleteKey::Backward);
    assert_eq!(c.to_string(), "");
}

#[test]
fn view_never_exceeds_window_length() {
    let mut c = Cell::new();
    for _ in 0..40 {
        c.insert('m');
    }
    assert!(c.view().chars().count() <= CELL_VIEW_LEN);
    assert_eq!(c.len(), 40);
}

#[test]
fn view_shows_full_text_when_it_fits() {
    let mut c = Cell::new();
    for ch in ['h', 'e', 'l', 'l', 'o'] {
        c.insert(ch);
    }
    assert_eq!(c.view(), "hello");
    // Cursor movement does not disturb a window that fits the text.
    c.move_cursor(Direction::Left);
    c.move_cursor(Direction::Left);
    assert_eq!(c.view(), "hello");
    c.move_cursor(Direction::Right);
    assert_eq!(c.view(), "hello");
}

#[test]
fn view_window_follows_the_cursor() {
    let mut c = Cell::new();
    for ch in ['0', '1', '2', '3', '4', '5', '6', '7', '8', '9', 'a', 'b', 'c', 'd'] {
        c.insert(ch);
    }
    // Fourteen characters typed: the window has shifted right by two.
    assert_eq!(c.view(), "23456789abcd");
}

#[test]
fn evaluated_text_takes_over_display() {
    let mut c = Cell::from_text(vec!['=', '4', '2']);
    c.set_evaluated(vec!['4', '2']);
    assert_eq!(c.to_string(), "42");
    assert_eq!(c.view(), "42");
    assert_eq!(c.len(), 2);
}

#[test]
fn clear_evaluated_reverts_to_raw_text_with_cursor_after_marker() {
    let mut c = Cell::from_text(vec!['=', '4', '2']);
    c.set_evaluated(vec!['4', '2']);
    c.clear_evaluated(false);
    assert_eq!(c.to_string(), "=42");
    // The cursor sits just after the marker: the next insert lands there.
    c.insert('x');
    assert_eq!(c.to_string(), "=x42");
}

#[test]
fn clear_evaluated_at_end_places_cursor_at_end() {
    let mut c = Cell::from_text(vec!['=', '4', '2']);
    c.set_evaluated(vec!['4', '2']);
    c.clear_evaluated(true);
    assert_eq!(c.to_string(), "=42");
    c.insert('7');
    assert_eq!(c.to_string(), "=427");
}

#[test]
fn clear_evaluated_without_evaluation_keeps_cursor() {
    let mut c = Cell::from_text(vec!['a', 'b']);
    c.clear_evaluated(false);
    c.insert('c');
    assert_eq!(c.to_string(), "abc");
}
