//! Session behavior: cursor and viewport movement, command execution,
//! search, the modal handlers, and the highlight predicate.

use sparsesheet::document::Document;
use sparsesheet::editor::{Editor, Key, Mode, Position, SearchMode, StatusMessage};
use sparsesheet::handlers::{
    handle_command_mode_press, handle_delete_mode_press, handle_insert_mode_press,
    handle_normal_mode_press, handle_save_as_mode_press, handle_search_mode_press,
};
use sparsesheet::ui::should_highlight_cell;

fn fresh() -> Editor {
    Editor::new(Document::new(), StatusMessage::empty())
}

fn type_command(e: &mut Editor, cmd: &str) {
    for c in cmd.chars() {
        assert!(handle_command_mode_press(e, Key::Char(c)).is_none());
    }
}

fn type_cell(e: &mut Editor, text: &str) {
    for c in text.chars() {
        handle_insert_mode_press(e, Key::Char(c));
    }
}

#[test]
fn cursor_moves_and_saturates() {
    let mut e = fresh();
    e.move_cursor(Key::Up);
    e.move_cursor(Key::Left);
    assert_eq!(e.cursor_position, Position { col: 0, row: 0 });
    e.move_cursor(Key::Down);
    e.move_cursor(Key::Char('j'));
    e.move_cursor(Key::Char('l'));
    assert_eq!(e.cursor_position, Position { col: 1, row: 2 });
    e.move_cursor(Key::Char('k'));
    e.move_cursor(Key::Char('h'));
    assert_eq!(e.cursor_position, Position { col: 0, row: 1 });
}

#[test]
fn viewbox_follows_the_cursor() {
    let mut e = fresh();
    for _ in 0..9 {
        e.move_cursor(Key::Down);
    }
    // The cursor left the eight-row viewport, so the anchor follows.
    assert_eq!(e.viewbox_anchor.row, 2);
    for _ in 0..9 {
        e.move_cursor(Key::Up);
    }
    assert_eq!(e.viewbox_anchor.row, 0);
}

#[test]
fn quit_command_sets_the_flag() {
    let mut e = fresh();
    assert!(!e.should_quit());
    type_command(&mut e, "q");
    assert!(handle_command_mode_press(&mut e, Key::Enter).is_none());
    assert!(e.should_quit());
    assert_eq!(e.mode, Mode::Normal);
}

#[test]
fn write_command_hands_back_the_payload() {
    let mut e = fresh();
    e.document.set_filename(Some(String::from("f.csv")));
    type_cell(&mut e, "hi");
    type_command(&mut e, "w");
    let req = handle_command_mode_press(&mut e, Key::Enter).unwrap();
    assert_eq!(req.filename, "f.csv");
    assert_eq!(req.content, "hi,\n");
    assert_eq!(e.mode, Mode::Normal);
}

#[test]
fn write_without_destination_prompts_for_one() {
    let mut e = fresh();
    type_command(&mut e, "w");
    assert!(handle_command_mode_press(&mut e, Key::Enter).is_none());
    assert_eq!(e.mode, Mode::SaveAs);
    assert_eq!(e.status_message.text, "Save as: ");
}

#[test]
fn insert_row_commands_use_the_cursor() {
    let mut e = fresh();
    type_cell(&mut e, "a");
    type_command(&mut e, "ira");
    assert!(handle_command_mode_press(&mut e, Key::Enter).is_none());
    assert!(e.document.get_cell(0, 0).is_none());
    assert_eq!(e.document.get_cell(0, 1).unwrap().to_string(), "a");
}

#[test]
fn unknown_command_reports_itself() {
    let mut e = fresh();
    type_command(&mut e, "zz");
    assert!(handle_command_mode_press(&mut e, Key::Enter).is_none());
    assert_eq!(e.status_message.text, "Unrecognized command: zz");
    assert_eq!(e.mode, Mode::Normal);
}

#[test]
fn search_selects_row_column_or_global() {
    let mut e = fresh();
    for c in "term/r".chars() {
        handle_search_mode_press(&mut e, Key::Char(c));
    }
    handle_search_mode_press(&mut e, Key::Enter);
    assert_eq!(e.search_mode, SearchMode::Row);
    assert_eq!(e.search_text.to_string(), "term");

    let mut f = fresh();
    for c in "x/g".chars() {
        handle_search_mode_press(&mut f, Key::Char(c));
    }
    handle_search_mode_press(&mut f, Key::Enter);
    assert_eq!(f.search_mode, SearchMode::Global);
    assert_eq!(f.search_text.to_string(), "x");
}

#[test]
fn search_rejects_short_and_unknown_suffixes() {
    let mut e = fresh();
    for c in "ab".chars() {
        handle_search_mode_press(&mut e, Key::Char(c));
    }
    handle_search_mode_press(&mut e, Key::Enter);
    assert_eq!(e.search_mode, SearchMode::Error);
    assert_eq!(e.status_message.text, "Could not parse search: ab");

    let mut f = fresh();
    for c in "abc/x".chars() {
        handle_search_mode_press(&mut f, Key::Char(c));
    }
    handle_search_mode_press(&mut f, Key::Enter);
    assert_eq!(f.search_mode, SearchMode::Error);
    assert_eq!(f.status_message.text, "Unidentified search mode: /x");
}

#[test]
fn highlight_needs_an_active_search_and_a_match() {
    let mut e = fresh();
    for c in "bc/g".chars() {
        handle_search_mode_press(&mut e, Key::Char(c));
    }
    handle_search_mode_press(&mut e, Key::Enter);
    assert!(should_highlight_cell(&e, &vec!['a', 'b', 'c', 'd'], 3, 7));
    assert!(!should_highlight_cell(&e, &vec!['a', 'b'], 3, 7));
}

#[test]
fn row_search_highlights_only_the_cursor_row() {
    let mut e = fresh();
    e.move_cursor(Key::Down);
    for c in "a/r".chars() {
        handle_search_mode_press(&mut e, Key::Char(c));
    }
    handle_search_mode_press(&mut e, Key::Enter);
    assert!(should_highlight_cell(&e, &vec!['a'], 4, 1));
    assert!(!should_highlight_cell(&e, &vec!['a'], 4, 2));
}

#[test]
fn insert_mode_types_into_the_grid_and_escape_evaluates() {
    let mut e = fresh();
    handle_normal_mode_press(&mut e, Key::Char('i'), false);
    assert_eq!(e.mode, Mode::Insert);
    type_cell(&mut e, "=7");
    handle_insert_mode_press(&mut e, Key::Esc);
    assert_eq!(e.mode, Mode::Normal);
    assert_eq!(e.get_text(0, 0), "7");
}

#[test]
fn normal_mode_opens_a_row_below() {
    let mut e = fresh();
    handle_normal_mode_press(&mut e, Key::Char('i'), false);
    type_cell(&mut e, "a");
    handle_insert_mode_press(&mut e, Key::Esc);
    handle_normal_mode_press(&mut e, Key::Char('o'), false);
    assert_eq!(e.mode, Mode::Insert);
    assert_eq!(e.cursor_position, Position { col: 0, row: 1 });
    assert_eq!(e.get_text(0, 0), "a");
    assert_eq!(e.get_text(0, 1), "");
}

#[test]
fn delete_mode_clears_cells_rows_and_columns() {
    let mut e = fresh();
    type_cell(&mut e, "a");
    e.move_cursor(Key::Right);
    type_cell(&mut e, "b");
    e.move_cursor(Key::Left);
    handle_delete_mode_press(&mut e, Key::Char(' '));
    assert_eq!(e.mode, Mode::Normal);
    assert!(e.document.get_cell(0, 0).is_none());
    assert_eq!(e.get_text(1, 0), "b");
    handle_delete_mode_press(&mut e, Key::Char('c'));
    assert_eq!(e.get_text(0, 0), "b");
    handle_delete_mode_press(&mut e, Key::Char('r'));
    assert_eq!(e.get_text(0, 0), "");
}

#[test]
fn save_as_mode_builds_a_name_and_saves_on_enter() {
    let mut e = fresh();
    type_cell(&mut e, "v");
    for c in "out.csv".chars() {
        assert!(handle_save_as_mode_press(&mut e, Key::Char(c)).is_none());
    }
    assert_eq!(e.status_message.text, "Save as: out.csv");
    let req = handle_save_as_mode_press(&mut e, Key::Enter).unwrap();
    assert_eq!(req.filename, "out.csv");
    assert_eq!(req.content, "v,\n");
    assert_eq!(e.mode, Mode::Normal);
}

#[test]
fn save_as_backspace_and_escape() {
    let mut e = fresh();
    for c in "ab".chars() {
        assert!(handle_save_as_mode_press(&mut e, Key::Char(c)).is_none());
    }
    assert!(handle_save_as_mode_press(&mut e, Key::Backspace).is_none());
    assert_eq!(e.status_message.text, "Save as: a");
    assert_eq!(e.document.filename(), &Some(String::from("a")));
    assert!(handle_save_as_mode_press(&mut e, Key::Esc).is_none());
    assert_eq!(e.document.filename(), &None);
    assert_eq!(e.status_message.text, "Save aborted");
    assert_eq!(e.mode, Mode::Normal);
}

#[test]
fn get_text_prefers_the_evaluated_value() {
    let mut e = fresh();
    type_cell(&mut e, "=5");
    handle_insert_mode_press(&mut e, Key::Esc);
    assert_eq!(e.get_text(0, 0), "5");
    assert_eq!(e.get_text(9, 9), "");
}

#[test]
fn command_mode_edits_the_buffer() {
    let mut e = fresh();
    type_command(&mut e, "qq");
    assert!(handle_command_mode_press(&mut e, Key::Backspace).is_none());
    assert!(handle_command_mode_press(&mut e, Key::Enter).is_none());
    assert!(e.should_quit());
}

#[test]
fn unknown_keys_are_ignored() {
    let mut e = fresh();
    type_cell(&mut e, "ab");
    handle_insert_mode_press(&mut e, Key::Other);
    assert_eq!(e.get_text(0, 0), "ab");
    handle_normal_mode_press(&mut e, Key::Char('z'), false);
    assert_eq!(e.mode, Mode::Normal);
    assert!(handle_command_mode_press(&mut e, Key::Other).is_none());
}

#[test]
fn search_escape_resets_everything() {
    let mut e = fresh();
    for c in "abc".chars() {
        handle_search_mode_press(&mut e, Key::Char(c));
    }
    handle_search_mode_press(&mut e, Key::Esc);
    assert_eq!(e.mode, Mode::Normal);
    assert_eq!(e.search_mode, SearchMode::Inactive);
    assert_eq!(e.search_text.to_string(), "");
}

#[test]
fn control_scrolls_inside_the_cell() {
    let mut e = fresh();
    type_cell(&mut e, "0123456789abcd");
    handle_insert_mode_press(&mut e, Key::Esc);
    // Fourteen characters: the cell's window starts two characters in.
    assert_eq!(e.document.get_cell(0, 0).unwrap().view(), "23456789abcd");
    for _ in 0..13 {
        handle_normal_mode_press(&mut e, Key::Left, true);
    }
    // The edit cursor walked left past the window, dragging it along; the
    // sheet cursor did not move.
    assert_eq!(e.document.get_cell(0, 0).unwrap().view(), "123456789abc");
    assert_eq!(e.cursor_position, Position { col: 0, row: 0 });
}
