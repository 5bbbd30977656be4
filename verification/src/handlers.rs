//! The modal input dispatch: one handler per input mode, each mapping a key
//! event to the session operation it stands for.

use vstd::prelude::*;

use crate::cell::{
    cell_clear_evaluated, cell_delete, cell_insert, cell_move, Cell, Direction, DeleteKey,
};
use crate::document::{
    doc_cell_at, doc_clear_cell, doc_cols_below_max, doc_delete_column, doc_delete_row,
    doc_evaluate_cell, doc_insert_at, doc_insert_row, doc_update_cell, lemma_doc_update_cell_wf,
    Document,
};
use crate::editor::{
    cursor_after, empty_buffer, execute_command_post, sat_inc, search_post, viewbox_after, Editor,
    EditorModel, Key, Mode, Position, SaveRequest, SearchMode, StatusMessage,
};
use crate::persist::doc_text;

verus! {

/// The cell-cursor direction a key stands for, if any.
pub open spec fn key_direction(key: Key) -> Option<Direction> {
    match key {
        Key::Left => Some(Direction::Left),
        Key::Right => Some(Direction::Right),
        Key::Char(c) => {
            if c == 'h' {
                Some(Direction::Left)
            } else if c == 'l' {
                Some(Direction::Right)
            } else {
                None
            }
        },
        _ => None,
    }
}

/// The cell deletion a key stands for, if any.
pub open spec fn key_delete(key: Key) -> Option<DeleteKey> {
    match key {
        Key::Delete => Some(DeleteKey::Forward),
        Key::Backspace => Some(DeleteKey::Backward),
        _ => None,
    }
}

/// A control character, which text buffers refuse: the C0 range, delete, and
/// the C1 range.
pub open spec fn is_control_char(c: char) -> bool {
    (c as u32) < 0x20 || (0x7f <= c as u32 && c as u32 <= 0x9f)
}

/// Whether `c` is a control character.
fn check_control(c: char) -> (r: bool)
    ensures
        r == is_control_char(c),
{
    let u = c as u32;
    u < 0x20 || (0x7f <= u && u <= 0x9f)
}

/// Move the edit cursor of the cell at `pos`, if one exists.
fn move_cell_cursor(document: &mut Document, pos: &Position, dir: Direction)
    requires
        old(document).wf(),
    ensures
        final(document).wf(),
        final(document).model() == match doc_cell_at(old(document).model(), pos.col, pos.row) {
            Some(cm) => doc_update_cell(old(document).model(), pos.col, pos.row, cell_move(
                cm,
                dir,
            )),
            None => old(document).model(),
        },
{
    let ghost d0 = old(document).model();
    match document.get_mut_cell(pos) {
        Some(cell) => {
            proof {
                assert(d0.rows.dom().contains(pos.row));
                assert(d0.rows[pos.row].cells.dom().contains(pos.col));
                assert(cell.wf());
            }
            cell.move_cursor(dir);
            proof {
                lemma_doc_update_cell_wf(d0, pos.col, pos.row, final(cell).model());
            }
        },
        None => {},
    }
}

/// Apply a delete key inside the cell at `pos`, if one exists.
fn delete_in_cell(document: &mut Document, pos: &Position, dk: DeleteKey)
    requires
        old(document).wf(),
    ensures
        final(document).wf(),
        final(document).model() == match doc_cell_at(old(document).model(), pos.col, pos.row) {
            Some(cm) => doc_update_cell(old(document).model(), pos.col, pos.row, cell_delete(
                cm,
                dk,
            )),
            None => old(document).model(),
        },
{
    let ghost d0 = old(document).model();
    match document.get_mut_cell(pos) {
        Some(cell) => {
            proof {
                assert(d0.rows.dom().contains(pos.row));
                assert(d0.rows[pos.row].cells.dom().contains(pos.col));
                assert(cell.wf());
            }
            cell.handle_delete(dk);
            proof {
                lemma_doc_update_cell_wf(d0, pos.col, pos.row, final(cell).model());
            }
        },
        None => {},
    }
}

/// Discard the evaluated value of the cell at `pos`, if one exists, placing
/// the edit cursor just past the formula marker.
fn clear_evaluated_at(document: &mut Document, pos: &Position)
    requires
        old(document).wf(),
    ensures
        final(document).wf(),
        final(document).model() == match doc_cell_at(old(document).model(), pos.col, pos.row) {
            Some(cm) => doc_update_cell(
                old(document).model(),
                pos.col,
                pos.row,
                cell_clear_evaluated(cm, false),
            ),
            None => old(document).model(),
        },
{
    let ghost d0 = old(document).model();
    match document.get_mut_cell(pos) {
        Some(cell) => {
            proof {
                assert(d0.rows.dom().contains(pos.row));
                assert(d0.rows[pos.row].cells.dom().contains(pos.col));
                assert(cell.wf());
            }
            cell.clear_evaluated(false);
            proof {
                lemma_doc_update_cell_wf(d0, pos.col, pos.row, final(cell).model());
            }
        },
        None => {},
    }
}

/// What a normal-mode key does to the session.
pub open spec fn normal_mode_post(m0: EditorModel, m1: EditorModel, key: Key, ctrl: bool) -> bool {
    match key {
        Key::Left | Key::Right => ctrl_or_move(m0, m1, key, ctrl),
        Key::Up | Key::Down => moved(m0, m1, key),
        Key::Char(c) => {
            if c == 'h' || c == 'l' {
                ctrl_or_move(m0, m1, key, ctrl)
            } else if c == 'j' || c == 'k' {
                moved(m0, m1, key)
            } else if c == 'i' {
                m1 == EditorModel {
                    mode: Mode::Insert,
                    document: match doc_cell_at(m0.document, m0.cursor.col, m0.cursor.row) {
                        Some(cm) => doc_update_cell(
                            m0.document,
                            m0.cursor.col,
                            m0.cursor.row,
                            cell_clear_evaluated(cm, false),
                        ),
                        None => m0.document,
                    },
                    ..m0
                }
            } else if c == ':' {
                m1 == EditorModel { mode: Mode::Command, ..m0 }
            } else if c == 'd' {
                m1 == EditorModel { mode: Mode::Delete, ..m0 }
            } else if c == 'o' {
                m1 == ({
                    let cursor = cursor_after(m0.cursor, Key::Char('j'));
                    EditorModel {
                        mode: Mode::Insert,
                        document: doc_insert_row(m0.document, sat_inc(m0.cursor.row)),
                        command: empty_buffer(),
                        cursor,
                        anchor: viewbox_after(m0.anchor, cursor),
                        ..m0
                    }
                })
            } else if c == 'O' {
                m1 == EditorModel {
                    mode: Mode::Insert,
                    document: doc_insert_row(m0.document, m0.cursor.row),
                    command: empty_buffer(),
                    ..m0
                }
            } else if c == '/' {
                m1 == EditorModel { mode: Mode::Search, ..m0 }
            } else {
                m1 == m0
            }
        },
        Key::Esc => m1 == EditorModel { mode: Mode::Normal, ..m0 },
        _ => m1 == m0,
    }
}

/// The sheet cursor moved by `key`, viewport pulled after it.
pub open spec fn moved(m0: EditorModel, m1: EditorModel, key: Key) -> bool {
    m1 == ({
        let cursor = cursor_after(m0.cursor, key);
        EditorModel { cursor, anchor: viewbox_after(m0.anchor, cursor), ..m0 }
    })
}

/// With control held, a horizontal key scrolls inside the current cell when
/// one exists; otherwise it moves the sheet cursor.
pub open spec fn ctrl_or_move(m0: EditorModel, m1: EditorModel, key: Key, ctrl: bool) -> bool {
    if ctrl {
        match doc_cell_at(m0.document, m0.cursor.col, m0.cursor.row) {
            Some(cm) => m1 == EditorModel {
                document: doc_update_cell(
                    m0.document,
                    m0.cursor.col,
                    m0.cursor.row,
                    cell_move(cm, key_direction(key).unwrap()),
                ),
                ..m0
            },
            None => moved(m0, m1, key),
        }
    } else {
        moved(m0, m1, key)
    }
}

/// Normal mode: arrows and `hjkl` move the sheet cursor (with control, the
/// horizontal keys scroll inside the current cell instead); `i` enters
/// insert mode on the current cell's raw text; `:` , `d` and `/` enter
/// command, delete and search mode; `o` and `O` open a row below or above
/// the cursor and enter insert mode.
pub fn handle_normal_mode_press(editor: &mut Editor, key: Key, ctrl: bool)
    requires
        old(editor).wf(),
        old(editor).document.model().max_row < usize::MAX,
    ensures
        final(editor).wf(),
        normal_mode_post(old(editor).model(), final(editor).model(), key, ctrl),
{
    match key {
        Key::Left | Key::Right => {
            if ctrl {
                let pos = editor.cursor_position;
                let has_cell = match editor.document.get_cell(pos.col, pos.row) {
                    Some(_) => true,
                    None => false,
                };
                if has_cell {
                    let dir = if matches!(key, Key::Left) {
                        Direction::Left
                    } else {
                        Direction::Right
                    };
                    move_cell_cursor(&mut editor.document, &pos, dir);
                } else {
                    editor.move_cursor(key);
                }
            } else {
                editor.move_cursor(key);
            }
        },
        Key::Up | Key::Down => {
            editor.move_cursor(key);
        },
        Key::Char(c) => {
            if c == 'h' || c == 'l' {
                if ctrl {
                    let pos = editor.cursor_position;
                    let has_cell = match editor.document.get_cell(pos.col, pos.row) {
                        Some(_) => true,
                        None => false,
                    };
                    if has_cell {
                        let dir = if c == 'h' {
                            Direction::Left
                        } else {
                            Direction::Right
                        };
                        move_cell_cursor(&mut editor.document, &pos, dir);
                    } else {
                        editor.move_cursor(key);
                    }
                } else {
                    editor.move_cursor(key);
                }
            } else if c == 'j' || c == 'k' {
                editor.move_cursor(key);
            } else if c == 'i' {
                editor.mode = Mode::Insert;
                let pos = editor.cursor_position;
                clear_evaluated_at(&mut editor.document, &pos);
            } else if c == ':' {
                editor.mode = Mode::Command;
            } else if c == 'd' {
                editor.mode = Mode::Delete;
            } else if c == 'o' {
                let at = crate::editor::saturating_inc(editor.cursor_position.row);
                editor.document.insert_row(at);
                editor.command = Cell::new();
                editor.move_cursor(Key::Char('j'));
                editor.mode = Mode::Insert;
            } else if c == 'O' {
                editor.document.insert_row(editor.cursor_position.row);
                editor.command = Cell::new();
                editor.mode = Mode::Insert;
            } else if c == '/' {
                editor.mode = Mode::Search;
            }
        },
        Key::Esc => {
            editor.mode = Mode::Normal;
        },
        _ => {},
    }
}

/// What an insert-mode key does to the session.
pub open spec fn insert_mode_post(m0: EditorModel, m1: EditorModel, key: Key) -> bool {
    match key {
        Key::Esc => m1 == EditorModel {
            mode: Mode::Normal,
            document: doc_evaluate_cell(m0.document, m0.cursor.col, m0.cursor.row),
            ..m0
        },
        Key::Char(c) => m1 == EditorModel {
            document: doc_insert_at(m0.document, m0.cursor.col, m0.cursor.row, c),
            ..m0
        },
        Key::Left | Key::Right => m1 == EditorModel {
            document: match doc_cell_at(m0.document, m0.cursor.col, m0.cursor.row) {
                Some(cm) => doc_update_cell(m0.document, m0.cursor.col, m0.cursor.row, cell_move(
                    cm,
                    key_direction(key).unwrap(),
                )),
                None => m0.document,
            },
            ..m0
        },
        Key::Backspace | Key::Delete => m1 == EditorModel {
            document: match doc_cell_at(m0.document, m0.cursor.col, m0.cursor.row) {
                Some(cm) => doc_update_cell(m0.document, m0.cursor.col, m0.cursor.row, cell_delete(
                    cm,
                    key_delete(key).unwrap(),
                )),
                None => m0.document,
            },
            ..m0
        },
        _ => m1 == m0,
    }
}

/// Insert mode: characters go into the cell under the cursor (creating it on
/// the first keystroke), the horizontal arrows move the cell's edit cursor,
/// the delete keys edit its text, and escape returns to normal mode and
/// evaluates the cell.
pub fn handle_insert_mode_press(editor: &mut Editor, key: Key)
    requires
        old(editor).wf(),
    ensures
        final(editor).wf(),
        insert_mode_post(old(editor).model(), final(editor).model(), key),
{
    match key {
        Key::Esc => {
            editor.mode = Mode::Normal;
            let pos = editor.cursor_position;
            editor.document.evaluate_current_cell(&pos);
        },
        Key::Char(c) => {
            let pos = editor.cursor_position;
            editor.document.insert_at(&pos, c);
        },
        Key::Left | Key::Right => {
            let pos = editor.cursor_position;
            let dir = if matches!(key, Key::Left) {
                Direction::Left
            } else {
                Direction::Right
            };
            move_cell_cursor(&mut editor.document, &pos, dir);
        },
        Key::Backspace | Key::Delete => {
            let pos = editor.cursor_position;
            let dk = if matches!(key, Key::Backspace) {
                DeleteKey::Backward
            } else {
                DeleteKey::Forward
            };
            delete_in_cell(&mut editor.document, &pos, dk);
        },
        _ => {},
    }
}

/// What a command-mode key does to the session.
pub open spec fn command_mode_post(
    m0: EditorModel,
    m1: EditorModel,
    key: Key,
    r: Option<SaveRequest>,
) -> bool {
    match key {
        Key::Esc => m1 == EditorModel { command: empty_buffer(), mode: Mode::Normal, ..m0 } && (r
            is None),
        Key::Char(c) => {
            &&& if !is_control_char(c) {
                m1 == EditorModel { command: cell_insert(m0.command, c), ..m0 }
            } else {
                m1 == m0
            }
            &&& r is None
        },
        Key::Enter => execute_command_post(m0, m1, r),
        Key::Left | Key::Right => m1 == EditorModel {
            command: cell_move(m0.command, key_direction(key).unwrap()),
            ..m0
        } && r is None,
        Key::Delete | Key::Backspace => m1 == EditorModel {
            command: cell_delete(m0.command, key_delete(key).unwrap()),
            ..m0
        } && r is None,
        _ => m1 == m0 && r is None,
    }
}

/// Command mode: printable characters build the command, the horizontal
/// arrows and delete keys edit it, enter runs it (possibly handing back a
/// save request for the caller to write), and escape abandons it.
pub fn handle_command_mode_press(editor: &mut Editor, key: Key) -> (r: Option<SaveRequest>)
    requires
        old(editor).wf(),
        old(editor).document.model().max_row < usize::MAX,
        doc_cols_below_max(old(editor).document.model()),
    ensures
        final(editor).wf(),
        command_mode_post(old(editor).model(), final(editor).model(), key, r),
{
    match key {
        Key::Esc => {
            editor.command = Cell::new();
            editor.mode = Mode::Normal;
            None
        },
        Key::Char(c) => {
            if !check_control(c) {
                editor.command.insert(c);
            }
            None
        },
        Key::Enter => editor.execute_command(),
        Key::Left | Key::Right => {
            let dir = if matches!(key, Key::Left) {
                Direction::Left
            } else {
                Direction::Right
            };
            editor.command.move_cursor(dir);
            None
        },
        Key::Delete | Key::Backspace => {
            let dk = if matches!(key, Key::Backspace) {
                DeleteKey::Backward
            } else {
                DeleteKey::Forward
            };
            editor.command.handle_delete(dk);
            None
        },
        _ => None,
    }
}

/// What a delete-mode key does to the session; every key returns to normal
/// mode.
pub open spec fn delete_mode_post(m0: EditorModel, m1: EditorModel, key: Key) -> bool {
    match key {
        Key::Char(c) => {
            if c == ' ' {
                m1 == EditorModel {
                    document: doc_clear_cell(m0.document, m0.cursor.col, m0.cursor.row),
                    mode: Mode::Normal,
                    ..m0
                }
            } else if c == 'r' {
                m1 == EditorModel {
                    document: doc_delete_row(m0.document, m0.cursor.row),
                    mode: Mode::Normal,
                    ..m0
                }
            } else if c == 'c' {
                m1 == EditorModel {
                    document: doc_delete_column(m0.document, m0.cursor.col),
                    mode: Mode::Normal,
                    ..m0
                }
            } else {
                m1 == EditorModel { status: "Unrecognized command"@, mode: Mode::Normal, ..m0 }
            }
        },
        Key::Esc => m1 == EditorModel { mode: Mode::Normal, ..m0 },
        _ => m1 == EditorModel { status: "Unrecognized command"@, mode: Mode::Normal, ..m0 },
    }
}

/// Delete mode: space clears the cell under the cursor, `r` deletes its row,
/// `c` deletes its column; any other key reports an unrecognized command.
/// Every key returns the session to normal mode.
pub fn handle_delete_mode_press(editor: &mut Editor, key: Key)
    requires
        old(editor).wf(),
    ensures
        final(editor).wf(),
        delete_mode_post(old(editor).model(), final(editor).model(), key),
{
    match key {
        Key::Char(c) => {
            if c == ' ' {
                let pos = editor.cursor_position;
                editor.document.clear_cell(&pos);
            } else if c == 'r' {
                editor.document.delete_row(editor.cursor_position.row);
            } else if c == 'c' {
                editor.document.delete_column(editor.cursor_position.col);
            } else {
                editor.status_message = StatusMessage::from_str("Unrecognized command");
            }
        },
        Key::Esc => {},
        _ => {
            editor.status_message = StatusMessage::from_str("Unrecognized command");
        },
    }
    editor.mode = Mode::Normal;
}

/// The file name shown and edited in save-as mode: the bound name, or empty.
pub open spec fn current_filename(m0: EditorModel) -> Seq<char> {
    match m0.document.filename {
        Some(n) => n,
        None => Seq::empty(),
    }
}

/// What a save-as key does to the session.
pub open spec fn save_as_post(
    m0: EditorModel,
    m1: EditorModel,
    key: Key,
    r: Option<SaveRequest>,
) -> bool {
    let f0 = current_filename(m0);
    match key {
        Key::Esc => m1 == EditorModel {
            document: crate::document::DocModel { filename: None, ..m0.document },
            mode: Mode::Normal,
            status: "Save aborted"@,
            ..m0
        } && r is None,
        Key::Enter => {
            match m0.document.filename {
                Some(name) => {
                    &&& r is Some
                    &&& r.unwrap().filename@ == name
                    &&& r.unwrap().content@ == doc_text(m0.document)
                    &&& m1 == EditorModel { mode: Mode::Normal, ..m0 }
                },
                None => {
                    &&& r is None
                    &&& m1 == EditorModel { mode: Mode::SaveAs, status: "No filename"@, ..m0 }
                },
            }
        },
        _ => {
            let f1 = match key {
                Key::Char(c) => if !is_control_char(c) {
                    f0.push(c)
                } else {
                    f0
                },
                Key::Backspace => if f0.len() > 0 {
                    f0.drop_last()
                } else {
                    f0
                },
                _ => f0,
            };
            &&& r is None
            &&& m1 == EditorModel {
                document: crate::document::DocModel {
                    filename: if f1.len() > 0 {
                        Some(f1)
                    } else {
                        m0.document.filename
                    },
                    ..m0.document
                },
                status: "Save as: "@ + f1,
                ..m0
            }
        },
    }
}

/// Save-as mode: printable characters and backspace edit the file name,
/// which is rebound as it is typed; enter saves to it (handing the write
/// back to the caller); escape unbinds the name and aborts.
pub fn handle_save_as_mode_press(editor: &mut Editor, key: Key) -> (r: Option<SaveRequest>)
    requires
        old(editor).wf(),
    ensures
        final(editor).wf(),
        save_as_post(old(editor).model(), final(editor).model(), key, r),
{
    match key {
        Key::Esc => {
            editor.document.set_filename(None);
            editor.mode = Mode::Normal;
            editor.status_message = StatusMessage::from_str("Save aborted");
            return None;
        },
        Key::Enter => {
            editor.mode = Mode::Normal;
            match editor.save() {
                Ok(p) => {
                    return Some(SaveRequest { filename: p.0, content: p.1 });
                },
                Err(_) => {
                    editor.status_message = StatusMessage::from_str("No filename");
                    return None;
                },
            }
        },
        _ => {},
    }
    let mut filename: Vec<char> = match editor.document.filename() {
        Some(name) => crate::text::str_to_chars(name.as_str()),
        None => Vec::new(),
    };
    proof {
        assert(filename@ =~= current_filename(old(editor).model()));
    }
    match key {
        Key::Char(c) => {
            if !check_control(c) {
                filename.push(c);
            }
        },
        Key::Backspace => {
            if filename.len() > 0 {
                let _last = filename.pop();
            }
        },
        _ => {},
    }
    let mut msg = crate::text::str_to_chars("Save as: ");
    crate::text::push_chars(&mut msg, &filename);
    editor.status_message = StatusMessage::from_text(crate::text::chars_to_string(&msg));
    if filename.len() > 0 {
        let name = crate::text::chars_to_string(&filename);
        editor.document.set_filename(Some(name));
    }
    None
}

/// What a search-mode key does to the session.
pub open spec fn search_mode_post(m0: EditorModel, m1: EditorModel, key: Key) -> bool {
    let idle = m0.search_mode == SearchMode::Inactive || m0.search_mode == SearchMode::Error;
    match key {
        Key::Esc => m1 == EditorModel {
            search_text: empty_buffer(),
            mode: Mode::Normal,
            search_mode: SearchMode::Inactive,
            ..m0
        },
        Key::Enter => search_post(m0, m1),
        Key::Delete | Key::Backspace => {
            if idle {
                m1 == EditorModel {
                    search_text: cell_delete(m0.search_text, key_delete(key).unwrap()),
                    search_mode: SearchMode::Inactive,
                    ..m0
                }
            } else {
                m1 == m0
            }
        },
        Key::Up | Key::Down | Key::Left | Key::Right => moved(m0, m1, key),
        Key::Char(c) => {
            if !idle {
                if c == 'j' || c == 'k' || c == 'h' || c == 'l' {
                    moved(m0, m1, key)
                } else if c == '/' {
                    m1 == EditorModel {
                        search_text: empty_buffer(),
                        search_mode: SearchMode::Inactive,
                        ..m0
                    }
                } else {
                    m1 == m0
                }
            } else {
                if !is_control_char(c) {
                    m1 == EditorModel {
                        search_text: cell_insert(m0.search_text, c),
                        search_mode: SearchMode::Inactive,
                        ..m0
                    }
                } else {
                    m1 == m0
                }
            }
        },
        _ => m1 == m0,
    }
}

/// Search mode: while no search is active, printable characters and the
/// delete keys edit the search term and enter runs it; while one is active,
/// the movement keys walk the sheet and `/` starts a new term; escape leaves
/// search mode.
pub fn handle_search_mode_press(editor: &mut Editor, key: Key)
    requires
        old(editor).wf(),
    ensures
        final(editor).wf(),
        search_mode_post(old(editor).model(), final(editor).model(), key),
{
    let idle = editor.search_mode == SearchMode::Inactive || editor.search_mode
        == SearchMode::Error;
    match key {
        Key::Esc => {
            editor.search_text = Cell::new();
            editor.mode = Mode::Normal;
            editor.search_mode = SearchMode::Inactive;
        },
        Key::Enter => {
            editor.search();
        },
        Key::Delete | Key::Backspace => {
            if idle {
                let dk = if matches!(key, Key::Backspace) {
                    DeleteKey::Backward
                } else {
                    DeleteKey::Forward
                };
                editor.search_text.handle_delete(dk);
                editor.search_mode = SearchMode::Inactive;
            }
        },
        Key::Up | Key::Down | Key::Left | Key::Right => {
            editor.move_cursor(key);
        },
        Key::Char(c) => {
            if !idle {
                if c == 'j' || c == 'k' || c == 'h' || c == 'l' {
                    editor.move_cursor(key);
                }
                if c == '/' {
                    editor.search_text = Cell::new();
                    editor.search_mode = SearchMode::Inactive;
                }
            } else {
                if !check_control(c) {
                    editor.search_text.insert(c);
                    editor.search_mode = SearchMode::Inactive;
                }
            }
        },
        _ => {},
    }
}

} // verus!
