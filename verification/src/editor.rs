//! Session state of the modal editor: cursor and viewport positions, the
//! current mode, the command and search buffers, and the dispatch of
//! commands into the document. The session never touches the terminal or the
//! file system itself: saving hands the serialized content back to the
//! caller.

use vstd::prelude::*;

use crate::cell::{cell_effective, cell_of_text, cell_wf, Cell, CellModel};
use crate::document::{
    doc_cell_at, doc_cols_below_max, doc_insert_column, doc_insert_row, doc_wf, DocModel,
    Document, SaveError,
};
use crate::persist::doc_text;

verus! {

/// A (column, row) coordinate in the sparse grid.
#[derive(PartialEq, Eq, Structural, Clone, Copy, Debug)]
pub struct Position {
    pub col: usize,
    pub row: usize,
}

impl Position {
    /// The origin coordinate.
    pub fn origin() -> (r: Position)
        ensures
            r.col == 0 && r.row == 0,
    {
        Position { col: 0, row: 0 }
    }
}

impl Default for Position {
    /// The origin coordinate, as `Position::origin`.
    fn default() -> (r: Position)
        ensures
            r.col == 0 && r.row == 0,
    {
        Position { col: 0, row: 0 }
    }
}

/// The editor's input mode.
#[derive(PartialEq, Eq, Structural, Clone, Copy, Debug)]
pub enum Mode {
    Normal,
    Insert,
    Command,
    SaveAs,
    Delete,
    Search,
}

/// Which kind of search is active, if any.
#[derive(PartialEq, Eq, Structural, Clone, Copy, Debug)]
pub enum SearchMode {
    Inactive,
    Row,
    Column,
    Global,
    Error,
}

/// A key event, as the dispatch layer hands it to the session.
#[derive(PartialEq, Eq, Structural, Clone, Copy, Debug)]
pub enum Key {
    Char(char),
    Up,
    Down,
    Left,
    Right,
    Esc,
    Enter,
    Backspace,
    Delete,
    Other,
}

/// A transient message shown in the status line.
pub struct StatusMessage {
    pub text: String,
}

impl StatusMessage {
    /// An empty status line.
    pub fn empty() -> (r: StatusMessage)
        ensures
            r.text@ == Seq::<char>::empty(),
    {
        StatusMessage { text: String::new() }
    }

    /// A status line showing `message`.
    pub fn from_text(message: String) -> (r: StatusMessage)
        ensures
            r.text@ == message@,
    {
        StatusMessage { text: message }
    }

    /// A status line showing `message`.
    pub fn from_str(message: &str) -> (r: StatusMessage)
        ensures
            r.text@ == message@,
    {
        StatusMessage { text: message.to_owned() }
    }
}

/// A write the caller must perform to complete a save: the whole serialized
/// document and the file it belongs in.
pub struct SaveRequest {
    pub filename: String,
    pub content: String,
}

/// Mathematical model of the whole session.
#[verifier::ext_equal]
pub ghost struct EditorModel {
    pub mode: Mode,
    pub should_quit: bool,
    pub cursor: Position,
    pub document: DocModel,
    pub command: CellModel,
    pub status: Seq<char>,
    pub anchor: Position,
    pub search_text: CellModel,
    pub search_mode: SearchMode,
}

/// The session is well formed when its document and its two text buffers
/// are.
pub open spec fn ed_wf(m: EditorModel) -> bool {
    doc_wf(m.document) && cell_wf(m.command) && cell_wf(m.search_text)
}

/// An empty cell buffer.
pub open spec fn empty_buffer() -> CellModel {
    cell_of_text(Seq::<char>::empty())
}

/// The next value of `x`, saturating at the machine bound.
pub open spec fn sat_inc(x: usize) -> usize {
    if x < usize::MAX {
        (x + 1) as usize
    } else {
        x
    }
}

/// The previous value of `x`, saturating at zero.
pub open spec fn sat_dec(x: usize) -> usize {
    if x > 0 {
        (x - 1) as usize
    } else {
        0
    }
}

/// One axis of the viewport adjustment: the anchor follows the cursor left
/// or up immediately, and right or down once the cursor leaves the fixed
/// viewport span.
pub open spec fn axis_adjust(a: usize, c: usize) -> usize {
    let pulled = if c < a {
        c
    } else {
        a
    };
    if pulled + 8 <= c {
        (c - 7) as usize
    } else {
        pulled
    }
}

/// The viewport anchor after a cursor movement.
pub open spec fn viewbox_after(anchor: Position, cursor: Position) -> Position {
    Position { col: axis_adjust(anchor.col, cursor.col), row: axis_adjust(anchor.row, cursor.row) }
}

/// Whether the key moves the sheet cursor.
pub open spec fn key_moves(key: Key) -> bool {
    match key {
        Key::Up | Key::Down | Key::Left | Key::Right => true,
        Key::Char(c) => c == 'h' || c == 'j' || c == 'k' || c == 'l',
        _ => false,
    }
}

/// The sheet cursor after a movement key, saturating at the grid's edges.
pub open spec fn cursor_after(p: Position, key: Key) -> Position {
    match key {
        Key::Down => Position { row: sat_inc(p.row), ..p },
        Key::Up => Position { row: sat_dec(p.row), ..p },
        Key::Left => Position { col: sat_dec(p.col), ..p },
        Key::Right => Position { col: sat_inc(p.col), ..p },
        Key::Char(c) => {
            if c == 'j' {
                Position { row: sat_inc(p.row), ..p }
            } else if c == 'k' {
                Position { row: sat_dec(p.row), ..p }
            } else if c == 'h' {
                Position { col: sat_dec(p.col), ..p }
            } else if c == 'l' {
                Position { col: sat_inc(p.col), ..p }
            } else {
                p
            }
        },
        _ => p,
    }
}

/// What `execute_command` does, as a relation between the session before,
/// the session after, and the save request it may hand back.
pub open spec fn execute_command_post(
    m0: EditorModel,
    m1: EditorModel,
    r: Option<SaveRequest>,
) -> bool {
    let cmd = cell_effective(m0.command);
    let done = EditorModel { command: empty_buffer(), mode: Mode::Normal, ..m0 };
    if cmd == "q"@ {
        m1 == EditorModel { should_quit: true, ..done } && r is None
    } else if cmd == "w"@ {
        match m0.document.filename {
            Some(name) => {
                &&& r is Some
                &&& r.unwrap().filename@ == name
                &&& r.unwrap().content@ == doc_text(m0.document)
                &&& m1 == done
            },
            None => {
                &&& r is None
                &&& m1 == EditorModel {
                    mode: Mode::SaveAs,
                    status: "Save as: "@,
                    command: empty_buffer(),
                    ..m0
                }
            },
        }
    } else if cmd == "ira"@ {
        m1 == EditorModel { document: doc_insert_row(m0.document, m0.cursor.row), ..done } && (r
            is None)
    } else if cmd == "irb"@ {
        m1 == EditorModel { document: doc_insert_row(m0.document, sat_inc(m0.cursor.row)), ..done }
            && r is None
    } else if cmd == "icl"@ {
        m1 == EditorModel { document: doc_insert_column(m0.document, m0.cursor.col), ..done } && (r
            is None)
    } else if cmd == "icr"@ {
        m1 == EditorModel {
            document: doc_insert_column(m0.document, sat_inc(m0.cursor.col)),
            ..done
        } && r is None
    } else {
        m1 == EditorModel { status: "Unrecognized command: "@ + cmd, ..done } && r is None
    }
}

/// What `search` does to the session.
pub open spec fn search_post(m0: EditorModel, m1: EditorModel) -> bool {
    let st = cell_effective(m0.search_text);
    if st.len() < 3 {
        m1 == EditorModel {
            search_mode: SearchMode::Error,
            status: "Could not parse search: "@ + st,
            ..m0
        }
    } else {
        let marker = st[st.len() - 2];
        let kind = st[st.len() - 1];
        let term = st.subrange(0, st.len() - 2);
        if marker == '/' && (kind == 'r' || kind == 'c' || kind == 'g') {
            m1 == EditorModel {
                search_mode: if kind == 'r' {
                    SearchMode::Row
                } else if kind == 'c' {
                    SearchMode::Column
                } else {
                    SearchMode::Global
                },
                search_text: cell_of_text(term),
                ..m0
            }
        } else {
            m1 == EditorModel {
                search_mode: SearchMode::Error,
                status: "Unidentified search mode: "@ + st.subrange(st.len() - 2, st.len() as int),
                ..m0
            }
        }
    }
}

/// The modal session: everything the editor holds between two key events.
pub struct Editor {
    pub mode: Mode,
    pub should_quit: bool,
    pub cursor_position: Position,
    pub document: Document,
    pub command: Cell,
    pub status_message: StatusMessage,
    pub viewbox_anchor: Position,
    pub search_text: Cell,
    pub search_mode: SearchMode,
}

impl Editor {
    /// The abstract value of the session.
    pub open spec fn model(&self) -> EditorModel {
        EditorModel {
            mode: self.mode,
            should_quit: self.should_quit,
            cursor: self.cursor_position,
            document: self.document.model(),
            command: self.command.model(),
            status: self.status_message.text@,
            anchor: self.viewbox_anchor,
            search_text: self.search_text.model(),
            search_mode: self.search_mode,
        }
    }

    pub open spec fn wf(&self) -> bool {
        ed_wf(self.model())
    }

    /// A fresh session over `document`, in normal mode at the origin,
    /// showing `initial_status`.
    pub fn new(document: Document, initial_status: StatusMessage) -> (r: Editor)
        requires
            document.wf(),
        ensures
            r.wf(),
            r.model() == (EditorModel {
                mode: Mode::Normal,
                should_quit: false,
                cursor: Position { col: 0, row: 0 },
                document: document.model(),
                command: empty_buffer(),
                status: initial_status.text@,
                anchor: Position { col: 0, row: 0 },
                search_text: empty_buffer(),
                search_mode: SearchMode::Inactive,
            }),
    {
        Editor {
            mode: Mode::Normal,
            should_quit: false,
            cursor_position: Position::origin(),
            document,
            command: Cell::new(),
            status_message: initial_status,
            viewbox_anchor: Position::origin(),
            search_text: Cell::new(),
            search_mode: SearchMode::Inactive,
        }
    }

    /// Whether a quit command has been executed.
    pub fn should_quit(&self) -> (r: bool)
        ensures
            r == self.model().should_quit,
    {
        self.should_quit
    }

    /// Pull the viewport anchor after the cursor so that the cursor stays
    /// inside the fixed viewport span.
    pub fn move_viewbox(&mut self)
        ensures
            final(self).model() == (EditorModel {
                anchor: viewbox_after(old(self).viewbox_anchor, old(self).cursor_position),
                ..old(self).model()
            }),
    {
        if self.cursor_position.row < self.viewbox_anchor.row {
            self.viewbox_anchor.row = self.cursor_position.row;
        }
        if self.cursor_position.col < self.viewbox_anchor.col {
            self.viewbox_anchor.col = self.cursor_position.col;
        }
        let viewbox_height: usize = 8;
        let viewbox_width: usize = 8;
        if self.cursor_position.row >= viewbox_height && self.viewbox_anchor.row
            <= self.cursor_position.row - viewbox_height {
            self.viewbox_anchor.row = self.cursor_position.row - (viewbox_height - 1);
        }
        if self.cursor_position.col >= viewbox_height && self.viewbox_anchor.col
            <= self.cursor_position.col - viewbox_height {
            self.viewbox_anchor.col = self.cursor_position.col - (viewbox_width - 1);
        }
    }

    /// Move the sheet cursor by one cell (arrows or `hjkl`), saturating at
    /// the grid's edges, and pull the viewport after it. Any other key
    /// leaves the session unchanged.
    pub fn move_cursor(&mut self, key: Key)
        ensures
            key_moves(key) ==> final(self).model() == ({
                let cursor = cursor_after(old(self).cursor_position, key);
                EditorModel {
                    cursor,
                    anchor: viewbox_after(old(self).viewbox_anchor, cursor),
                    ..old(self).model()
                }
            }),
            !key_moves(key) ==> final(self).model() == old(self).model(),
    {
        let moved = match key {
            Key::Down => {
                self.cursor_position.row = saturating_inc(self.cursor_position.row);
                true
            },
            Key::Up => {
                self.cursor_position.row = saturating_dec(self.cursor_position.row);
                true
            },
            Key::Left => {
                self.cursor_position.col = saturating_dec(self.cursor_position.col);
                true
            },
            Key::Right => {
                self.cursor_position.col = saturating_inc(self.cursor_position.col);
                true
            },
            Key::Char(c) => {
                if c == 'j' {
                    self.cursor_position.row = saturating_inc(self.cursor_position.row);
                    true
                } else if c == 'k' {
                    self.cursor_position.row = saturating_dec(self.cursor_position.row);
                    true
                } else if c == 'h' {
                    self.cursor_position.col = saturating_dec(self.cursor_position.col);
                    true
                } else if c == 'l' {
                    self.cursor_position.col = saturating_inc(self.cursor_position.col);
                    true
                } else {
                    false
                }
            },
            _ => false,
        };
        if moved {
            self.move_viewbox();
        }
    }

    /// Run the command held in the command buffer: `q` quits, `w` hands back
    /// a save request, `ira`/`irb` insert a row at/below the cursor,
    /// `icl`/`icr` insert a column at/right of the cursor, and anything else
    /// reports an unrecognized command. The command buffer is cleared and
    /// the session returns to normal mode (except that an unbound `w` stays
    /// in save-as mode to prompt for a name).
    pub fn execute_command(&mut self) -> (r: Option<SaveRequest>)
        requires
            old(self).wf(),
            old(self).document.model().max_row < usize::MAX,
            doc_cols_below_max(old(self).document.model()),
        ensures
            final(self).wf(),
            execute_command_post(old(self).model(), final(self).model(), r),
    {
        let cmd = crate::text::copy_chars(self.command.to_str());
        let result: Option<SaveRequest>;
        if crate::text::chars_eq(&cmd, "q") {
            self.should_quit = true;
            result = None;
        } else if crate::text::chars_eq(&cmd, "w") {
            match self.save() {
                Ok(p) => {
                    result = Some(SaveRequest { filename: p.0, content: p.1 });
                },
                Err(_) => {
                    self.command = Cell::new();
                    return None;
                },
            }
        } else if crate::text::chars_eq(&cmd, "ira") {
            self.document.insert_row(self.cursor_position.row);
            result = None;
        } else if crate::text::chars_eq(&cmd, "irb") {
            self.document.insert_row(saturating_inc(self.cursor_position.row));
            result = None;
        } else if crate::text::chars_eq(&cmd, "icl") {
            self.document.insert_column(self.cursor_position.col);
            result = None;
        } else if crate::text::chars_eq(&cmd, "icr") {
            self.document.insert_column(saturating_inc(self.cursor_position.col));
            result = None;
        } else {
            let mut msg = crate::text::str_to_chars("Unrecognized command: ");
            crate::text::push_chars(&mut msg, &cmd);
            self.status_message = StatusMessage::from_text(crate::text::chars_to_string(&msg));
            result = None;
        }
        self.command = Cell::new();
        self.mode = Mode::Normal;
        result
    }

    /// Interpret the search buffer: a term ending in `/r`, `/c` or `/g`
    /// selects a row, column or global search and leaves the bare term in
    /// the buffer; anything shorter or with another suffix reports an error.
    pub fn search(&mut self)
        requires
            old(self).wf(),
        ensures
            final(self).wf(),
            search_post(old(self).model(), final(self).model()),
    {
        let n = self.search_text.to_str().len();
        if n < 3 {
            let mut msg = crate::text::str_to_chars("Could not parse search: ");
            crate::text::push_chars(&mut msg, self.search_text.to_str());
            self.search_mode = SearchMode::Error;
            self.status_message = StatusMessage::from_text(crate::text::chars_to_string(&msg));
            return ;
        }
        let st = self.search_text.to_str();
        let marker = st[n - 2];
        let kind = st[n - 1];
        if marker == '/' && (kind == 'r' || kind == 'c' || kind == 'g') {
            let mut term: Vec<char> = Vec::new();
            let mut i: usize = 0;
            while i < n - 2
                invariant
                    n == cell_effective(self.search_text.model()).len(),
                    3 <= n,
                    i <= n - 2,
                    term@ == cell_effective(self.search_text.model()).subrange(0, i as int),
                decreases n - 2 - i,
            {
                let st2 = self.search_text.to_str();
                term.push(st2[i]);
                i = i + 1;
                proof {
                    assert(term@ =~= cell_effective(self.search_text.model()).subrange(
                        0,
                        i as int,
                    ));
                }
            }
            self.search_mode = if kind == 'r' {
                SearchMode::Row
            } else if kind == 'c' {
                SearchMode::Column
            } else {
                SearchMode::Global
            };
            self.search_text = Cell::from_text(term);
        } else {
            let mut suffix: Vec<char> = Vec::new();
            suffix.push(marker);
            suffix.push(kind);
            proof {
                let st0 = cell_effective(old(self).model().search_text);
                assert(suffix@ =~= st0.subrange(st0.len() - 2, st0.len() as int));
            }
            let mut msg = crate::text::str_to_chars("Unidentified search mode: ");
            crate::text::push_chars(&mut msg, &suffix);
            self.search_mode = SearchMode::Error;
            self.status_message = StatusMessage::from_text(crate::text::chars_to_string(&msg));
        }
    }

    /// Bind the serialized document to its file name for the caller to
    /// write; with no file name bound, switch to save-as mode, prompt, and
    /// report the missing destination.
    pub fn save(&mut self) -> (r: Result<(String, String), SaveError>)
        requires
            old(self).wf(),
        ensures
            final(self).wf(),
            match r {
                Ok(p) => {
                    &&& old(self).document.model().filename == Some(p.0@)
                    &&& p.1@ == doc_text(old(self).document.model())
                    &&& final(self).model() == old(self).model()
                },
                Err(e) => {
                    &&& e == SaveError::NoDestination
                    &&& old(self).document.model().filename is None
                    &&& final(self).model() == (EditorModel {
                        mode: Mode::SaveAs,
                        status: "Save as: "@,
                        ..old(self).model()
                    })
                },
            },
    {
        if self.document.filename().is_none() {
            self.mode = Mode::SaveAs;
            self.status_message = StatusMessage::from_str("Save as: ");
        }
        self.document.save_payload()
    }

    /// The effective text of the cell at a coordinate, or the empty string
    /// when no cell exists there.
    pub fn get_text(&self, col: usize, row: usize) -> (r: String)
        ensures
            r@ == match doc_cell_at(self.model().document, col, row) {
                Some(cm) => cell_effective(cm),
                None => Seq::<char>::empty(),
            },
    {
        if let Some(cell) = self.document.get_cell(col, row) {
            cell.to_string()
        } else {
            String::new()
        }
    }

    /// The current input mode.
    pub fn get_mode(&self) -> (r: &Mode)
        ensures
            *r == self.model().mode,
    {
        &self.mode
    }
}

/// `x + 1`, saturating at the machine bound.
pub fn saturating_inc(x: usize) -> (r: usize)
    ensures
        r == sat_inc(x),
{
    if x < usize::MAX {
        x + 1
    } else {
        x
    }
}

/// `x - 1`, saturating at zero.
pub fn saturating_dec(x: usize) -> (r: usize)
    ensures
        r == sat_dec(x),
{
    if x > 0 {
        x - 1
    } else {
        0
    }
}

} // verus!
