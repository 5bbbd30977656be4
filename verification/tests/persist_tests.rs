//! The persisted text format and the formula evaluator: serialization,
//! parsing, the save/load round trip, and evaluation results.

use sparsesheet::document::{Document, SaveError};
use sparsesheet::editor::Position;
use sparsesheet::parser::parse;

fn pos(col: usize, row: usize) -> Position {
    Position { col, row }
}

fn type_at(d: &mut Document, col: usize, row: usize, text: &str) {
    for c in text.chars() {
        d.insert_at(&pos(col, row), c);
    }
}

fn chars(s: &str) -> Vec<char> {
    s.chars().collect()
}

fn string_of(v: &Vec<char>) -> String {
    v.iter().collect()
}

#[test]
fn to_text_serializes_rows_and_fields() {
    let mut d = Document::new();
    type_at(&mut d, 0, 0, "a");
    type_at(&mut d, 2, 0, "b");
    type_at(&mut d, 1, 2, "c");
    assert_eq!(string_of(&d.to_text()), "a,,b,\n\n,c,\n");
}

#[test]
fn to_text_of_empty_document_is_one_record_separator() {
    let d = Document::new();
    assert_eq!(string_of(&d.to_text()), "\n");
}

#[test]
fn to_text_writes_raw_text_not_evaluated() {
    let mut d = Document::new();
    type_at(&mut d, 0, 0, "=42");
    d.evaluate_current_cell(&pos(0, 0));
    assert_eq!(string_of(&d.to_text()), "=42,\n");
}

#[test]
fn from_text_materializes_cells() {
    let d = Document::from_text(&chars("a,,b,\n\n,c,\n"), Some(String::from("sheet.csv")));
    assert_eq!(d.get_cell(0, 0).unwrap().to_string(), "a");
    assert!(d.get_cell(1, 0).is_none());
    assert_eq!(d.get_cell(2, 0).unwrap().to_string(), "b");
    assert!(d.get_row(1).is_none());
    assert_eq!(d.get_cell(1, 2).unwrap().to_string(), "c");
    assert_eq!(d.max_row(), 2);
    assert_eq!(d.filename(), &Some(String::from("sheet.csv")));
}

#[test]
fn from_text_of_empty_input_is_empty() {
    let d = Document::from_text(&Vec::new(), None);
    assert!(d.get_cell(0, 0).is_none());
    assert_eq!(d.max_row(), 0);
}

#[test]
fn save_then_load_restores_every_cell() {
    let mut d = Document::new();
    type_at(&mut d, 0, 0, "alpha");
    type_at(&mut d, 3, 0, "beta");
    type_at(&mut d, 1, 4, "gamma");
    let text = d.to_text();
    let back = Document::from_text(&text, None);
    assert_eq!(back.get_cell(0, 0).unwrap().to_string(), "alpha");
    assert_eq!(back.get_cell(3, 0).unwrap().to_string(), "beta");
    assert_eq!(back.get_cell(1, 4).unwrap().to_string(), "gamma");
    assert!(back.get_cell(1, 0).is_none());
    assert!(back.get_cell(0, 4).is_none());
}

#[test]
fn save_payload_needs_a_destination() {
    let mut d = Document::new();
    type_at(&mut d, 0, 0, "x");
    assert_eq!(d.save_payload(), Err(SaveError::NoDestination));
    d.set_filename(Some(String::from("out.csv")));
    let (name, content) = d.save_payload().unwrap();
    assert_eq!(name, "out.csv");
    assert_eq!(content, "x,\n");
}

#[test]
fn evaluate_sets_display_to_the_number() {
    let mut d = Document::new();
    type_at(&mut d, 0, 0, "=42");
    d.evaluate_current_cell(&pos(0, 0));
    let cell = d.get_cell(0, 0).unwrap();
    assert_eq!(cell.to_string(), "42");
    assert_eq!(cell.view(), "42");
}

#[test]
fn evaluate_without_marker_is_a_no_op() {
    let mut d = Document::new();
    type_at(&mut d, 0, 0, "42");
    d.evaluate_current_cell(&pos(0, 0));
    assert_eq!(d.get_cell(0, 0).unwrap().to_string(), "42");
    // No cell at all: also a no-op.
    d.evaluate_current_cell(&pos(5, 5));
    assert!(d.get_cell(5, 5).is_none());
}

#[test]
fn evaluate_takes_the_leading_digit_run() {
    let mut d = Document::new();
    type_at(&mut d, 0, 0, "=0042abc");
    d.evaluate_current_cell(&pos(0, 0));
    assert_eq!(d.get_cell(0, 0).unwrap().to_string(), "42");
}

#[test]
fn parse_reports_a_non_number() {
    let d = Document::new();
    assert_eq!(string_of(&parse(Some(&chars("abc")), &d)), "#ERR:parse");
    assert_eq!(string_of(&parse(Some(&chars("")), &d)), "#ERR:parse");
}

#[test]
fn parse_reports_a_value_out_of_range() {
    let d = Document::new();
    assert_eq!(string_of(&parse(Some(&chars("4294967295")), &d)), "4294967295");
    assert_eq!(string_of(&parse(Some(&chars("4294967296")), &d)), "#ERR:range");
    assert_eq!(string_of(&parse(Some(&chars("99999999999999999999")), &d)), "#ERR:range");
}

#[test]
fn parse_of_no_formula_is_empty() {
    let d = Document::new();
    assert_eq!(string_of(&parse(None, &d)), "");
    assert_eq!(string_of(&parse(Some(&chars("0")), &d)), "0");
}
