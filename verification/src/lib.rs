//! Storage engine of a terminal spreadsheet editor: a sparse grid of cells
//! keyed by unbounded (row, column) coordinates, the row and column
//! insertion and deletion algorithms, per-cell text editing with a cursor
//! and a fixed-width view window, a literal-integer formula evaluator, and
//! load/save to a comma-and-newline delimited text format.

pub mod cell;
pub mod document;
pub mod editor;
pub mod grid;
pub mod handlers;
pub mod laws;
pub mod parser;
pub mod persist;
pub mod row;
pub mod text;
pub mod ui;

pub use cell::Cell;
pub use document::Document;
pub use editor::Editor;
pub use row::Row;
