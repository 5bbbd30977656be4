//! One unit of spreadsheet content: a text buffer with an edit cursor, a
//! horizontal view window, and an optional evaluated display value.

use vstd::prelude::*;

verus! {

/// Width of the fixed viewing window, in characters.
pub const CELL_VIEW_LEN: usize = 12;

/// Direction of a cursor movement inside a cell.
#[derive(Clone, Copy, PartialEq, Eq, Structural)]
pub enum Direction {
    Left,
    Right,
}

/// Which of the two delete keys acts on the cell.
#[derive(Clone, Copy, PartialEq, Eq, Structural)]
pub enum DeleteKey {
    /// The Delete key: removes the character under the cursor.
    Forward,
    /// The Backspace key: removes the character before the cursor.
    Backward,
}

/// Mathematical model of a cell. `eval` is empty when no evaluated value is
/// present; a non-empty `eval` is what the cell displays instead of `text`.
#[verifier::ext_equal]
pub ghost struct CellModel {
    /// The raw, user-typed content.
    pub text: Seq<char>,
    /// Index into `text` where edits are applied.
    pub cursor: nat,
    /// Index of the first character shown in the viewing window.
    pub window: nat,
    /// The evaluated display value; empty means "none".
    pub eval: Seq<char>,
}

/// A cell is well formed when its cursor lies inside its raw text.
pub open spec fn cell_wf(m: CellModel) -> bool {
    m.cursor <= m.text.len()
}

/// The text a cell displays: the evaluated value if one is present, else the
/// raw text.
pub open spec fn cell_effective(m: CellModel) -> Seq<char> {
    if m.eval.len() > 0 {
        m.eval
    } else {
        m.text
    }
}

/// The window of the effective text that rendering sees: at most
/// `CELL_VIEW_LEN` characters starting at the view offset, clamped so that it
/// always lies inside the text.
pub open spec fn cell_view_seq(m: CellModel) -> Seq<char> {
    let t = cell_effective(m);
    let start = if m.window <= t.len() {
        m.window as int
    } else {
        t.len() as int
    };
    let end = if m.window + CELL_VIEW_LEN <= t.len() {
        m.window + CELL_VIEW_LEN
    } else {
        t.len() as int
    };
    t.subrange(start, end)
}

/// A fresh cell holding the single character `c`, cursor just after it.
pub open spec fn cell_of_char(c: char) -> CellModel {
    CellModel { text: seq![c], cursor: 1, window: 0, eval: Seq::empty() }
}

/// A fresh cell holding `text`, cursor at its end.
pub open spec fn cell_of_text(text: Seq<char>) -> CellModel {
    CellModel { text, cursor: text.len(), window: 0, eval: Seq::empty() }
}

/// Splice `c` into the raw text at the cursor, advance the cursor by one, and
/// shift the window right by one if the cursor would fall outside it.
pub open spec fn cell_insert(m: CellModel, c: char) -> CellModel {
    let cursor = m.cursor + 1;
    CellModel {
        text: m.text.insert(m.cursor as int, c),
        cursor,
        window: if cursor > m.window + CELL_VIEW_LEN {
            m.window + 1
        } else {
            m.window
        },
        eval: m.eval,
    }
}

/// Move the cursor one position left or right, saturating at the ends of the
/// raw text, shifting the window when the cursor leaves it.
pub open spec fn cell_move(m: CellModel, key: Direction) -> CellModel {
    match key {
        Direction::Left => {
            let cursor = if m.cursor > 0 {
                (m.cursor - 1) as nat
            } else {
                0nat
            };
            CellModel {
                cursor,
                window: if cursor < m.window {
                    (m.window - 1) as nat
                } else {
                    m.window
                },
                ..m
            }
        },
        Direction::Right => {
            if m.cursor < m.text.len() {
                let cursor = m.cursor + 1;
                CellModel {
                    cursor,
                    window: if cursor > m.window + CELL_VIEW_LEN {
                        m.window + 1
                    } else {
                        m.window
                    },
                    ..m
                }
            } else {
                m
            }
        },
    }
}

/// Remove one character from the raw text: the one under the cursor for
/// `Forward` (cursor stays), the one before it for `Backward` (cursor moves
/// back by one). Out-of-range deletes leave the cell unchanged.
pub open spec fn cell_delete(m: CellModel, key: DeleteKey) -> CellModel {
    match key {
        DeleteKey::Forward => {
            if m.cursor < m.text.len() {
                CellModel { text: m.text.remove(m.cursor as int), ..m }
            } else {
                m
            }
        },
        DeleteKey::Backward => {
            if m.cursor > 0 {
                CellModel {
                    text: m.text.remove(m.cursor - 1),
                    cursor: (m.cursor - 1) as nat,
                    ..m
                }
            } else {
                m
            }
        },
    }
}

/// Store an evaluated display value and reset cursor and window.
pub open spec fn cell_set_evaluated(m: CellModel, e: Seq<char>) -> CellModel {
    CellModel { eval: e, cursor: 0, window: 0, ..m }
}

/// Discard the evaluated value. With `place_at_end` the cursor and window move
/// to the end of the raw text; otherwise, if an evaluated value had been
/// showing, the cursor moves just past the leading marker character (clamped
/// into the text when the text is shorter).
pub open spec fn cell_clear_evaluated(m: CellModel, place_at_end: bool) -> CellModel {
    if place_at_end {
        CellModel {
            eval: Seq::empty(),
            cursor: m.text.len(),
            window: if m.text.len() > CELL_VIEW_LEN {
                (m.text.len() - CELL_VIEW_LEN) as nat
            } else {
                0nat
            },
            ..m
        }
    } else if m.eval.len() > 0 {
        CellModel {
            eval: Seq::empty(),
            cursor: if m.text.len() > 0 {
                1nat
            } else {
                0nat
            },
            window: 0,
            ..m
        }
    } else {
        CellModel { eval: Seq::empty(), ..m }
    }
}

/// One unit of text content at a single spreadsheet coordinate.
pub struct Cell {
    text: Vec<char>,
    cursor_position: usize,
    view_start: usize,
    evaluated: Vec<char>,
}

impl Cell {
    /// The abstract value of this cell.
    pub closed spec fn model(&self) -> CellModel {
        CellModel {
            text: self.text@,
            cursor: self.cursor_position as nat,
            window: self.view_start as nat,
            eval: self.evaluated@,
        }
    }

    pub open spec fn wf(&self) -> bool {
        cell_wf(self.model())
    }

    /// An empty cell with cursor and window at the start.
    pub fn new() -> (r: Cell)
        ensures
            r.wf(),
            r.model() == cell_of_text(Seq::<char>::empty()),
    {
        Cell { text: Vec::new(), cursor_position: 0, view_start: 0, evaluated: Vec::new() }
    }

    /// The cell created by typing `c` into an empty coordinate.
    pub fn from_char(c: char) -> (r: Cell)
        ensures
            r.wf(),
            r.model() == cell_of_char(c),
    {
        let mut text = Vec::new();
        text.push(c);
        Cell { text, cursor_position: 1, view_start: 0, evaluated: Vec::new() }
    }

    /// A cell seeded with `text`, cursor at its end, as when loading a file.
    pub fn from_text(text: Vec<char>) -> (r: Cell)
        ensures
            r.wf(),
            r.model() == cell_of_text(text@),
    {
        let cursor_position = text.len();
        Cell { text, cursor_position, view_start: 0, evaluated: Vec::new() }
    }

    /// The effective text: the evaluated value if present, else the raw text.
    pub fn to_str(&self) -> (r: &Vec<char>)
        ensures
            r@ == cell_effective(self.model()),
    {
        if self.evaluated.len() > 0 {
            &self.evaluated
        } else {
            &self.text
        }
    }

    /// The raw, user-typed text.
    pub fn raw_text(&self) -> (r: &Vec<char>)
        ensures
            r@ == self.model().text,
    {
        &self.text
    }

    /// Length of the effective text.
    pub fn len(&self) -> (r: usize)
        ensures
            r == cell_effective(self.model()).len(),
    {
        if self.evaluated.len() > 0 {
            self.evaluated.len()
        } else {
            self.text.len()
        }
    }


    /// The window of the effective text that the rendering layer shows: at
    /// most `CELL_VIEW_LEN` characters starting at the view offset, clamped
    /// into the text.
    pub fn view(&self) -> (r: String)
        ensures
            r@ == cell_view_seq(self.model()),
    {
        let text = if self.evaluated.len() > 0 {
            &self.evaluated
        } else {
            &self.text
        };
        let start = if self.view_start <= text.len() {
            self.view_start
        } else {
            text.len()
        };
        let end = if text.len() - start > CELL_VIEW_LEN {
            start + CELL_VIEW_LEN
        } else {
            text.len()
        };
        let mut window: Vec<char> = Vec::new();
        let mut i: usize = start;
        while i < end
            invariant
                start <= i <= end,
                end <= text@.len(),
                window@ == text@.subrange(start as int, i as int),
            decreases end - i,
        {
            window.push(text[i]);
            i = i + 1;
            proof {
                assert(window@ =~= text@.subrange(start as int, i as int));
            }
        }
        crate::text::chars_to_string(&window)
    }

    /// The effective text as an owned `String`, for display.
    pub fn to_string(&self) -> (r: String)
        ensures
            r@ == cell_effective(self.model()),
    {
        if self.evaluated.len() > 0 {
            crate::text::chars_to_string(&self.evaluated)
        } else {
            crate::text::chars_to_string(&self.text)
        }
    }

    /// Splice `c` into the raw text at the cursor and advance the cursor,
    /// shifting the view window right when the cursor passes its edge.
    pub fn insert(&mut self, c: char)
        requires
            old(self).wf(),
        ensures
            final(self).wf(),
            final(self).model() == cell_insert(old(self).model(), c),
    {
        self.text.insert(self.cursor_position, c);
        // Reading the new length shows the incremented cursor cannot overflow.
        let n: usize = self.text.len();
        self.cursor_position = self.cursor_position + 1;
        assert(self.cursor_position <= n);
        if self.cursor_position > CELL_VIEW_LEN
            && self.view_start < self.cursor_position - CELL_VIEW_LEN {
            self.view_start = self.view_start + 1;
        }
    }

    /// Move the cursor one position, saturating at the ends of the raw text.
    pub fn move_cursor(&mut self, key: Direction)
        requires
            old(self).wf(),
        ensures
            final(self).wf(),
            final(self).model() == cell_move(old(self).model(), key),
    {
        match key {
            Direction::Left => {
                self.cursor_position = if self.cursor_position > 0 {
                    self.cursor_position - 1
                } else {
                    0
                };
                if self.cursor_position < self.view_start {
                    self.view_start = self.view_start - 1;
                }
            },
            Direction::Right => {
                if self.cursor_position < self.text.len() {
                    self.cursor_position = self.cursor_position + 1;
                    if self.cursor_position > CELL_VIEW_LEN
                        && self.view_start < self.cursor_position - CELL_VIEW_LEN {
                        self.view_start = self.view_start + 1;
                    }
                }
            },
        }
    }

    /// Remove one character from the raw text; out-of-range deletes are
    /// silently ignored.
    pub fn handle_delete(&mut self, key: DeleteKey)
        requires
            old(self).wf(),
        ensures
            final(self).wf(),
            final(self).model() == cell_delete(old(self).model(), key),
    {
        match key {
            DeleteKey::Forward => {
                if self.cursor_position < self.text.len() {
                    self.text.remove(self.cursor_position);
                }
            },
            DeleteKey::Backward => {
                if self.cursor_position > 0 {
                    self.text.remove(self.cursor_position - 1);
                    self.cursor_position = self.cursor_position - 1;
                }
            },
        }
    }

    /// Store an evaluated display value; the cell becomes read-only until the
    /// value is cleared, so cursor and window reset to the start.
    pub fn set_evaluated(&mut self, evaluated: Vec<char>)
        requires
            old(self).wf(),
        ensures
            final(self).wf(),
            final(self).model() == cell_set_evaluated(old(self).model(), evaluated@),
    {
        self.evaluated = evaluated;
        self.cursor_position = 0;
        self.view_start = 0;
    }

    /// Discard the evaluated value, reverting the display to the raw text.
    pub fn clear_evaluated(&mut self, place_at_end: bool)
        requires
            old(self).wf(),
        ensures
            final(self).wf(),
            final(self).model() == cell_clear_evaluated(old(self).model(), place_at_end),
    {
        let was_evaluated = self.evaluated.len() > 0;
        self.evaluated = Vec::new();
        if place_at_end {
            self.cursor_position = self.text.len();
            self.view_start = if self.text.len() > CELL_VIEW_LEN {
                self.text.len() - CELL_VIEW_LEN
            } else {
                0
            };
        } else if was_evaluated {
            self.cursor_position = if self.text.len() > 0 {
                1
            } else {
                0
            };
            self.view_start = 0;
        }
    }
}

impl Default for Cell {
    /// An empty cell, as `Cell::new`.
    fn default() -> (r: Cell)
        ensures
            r.wf(),
            r.model() == cell_of_text(Seq::<char>::empty()),
    {
        Cell::new()
    }
}

} // verus!
