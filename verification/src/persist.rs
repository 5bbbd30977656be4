//! The persisted text format: rows separated by a newline, cells within a
//! row by a comma, an empty field meaning "no cell here". This module gives
//! the format its mathematical definition, the splitting primitive shared by
//! loading, and the proof that loading a saved document restores every
//! cell's text, provided no text contains a separator.

use vstd::prelude::*;

use crate::document::{doc_cell_at, doc_wf, DocModel};
use crate::row::{row_empty, row_init_cell_at, row_wf, RowModel};

verus! {

/// The field separator between the cells of a row.
pub const FIELD_SEP: char = ',';

/// The record separator between rows.
pub const RECORD_SEP: char = '\n';

/// `s` split on `sep`: the runs between separators, in order. A text with
/// `n` separators yields `n + 1` fields; the empty text yields one empty
/// field.
pub open spec fn split_on(s: Seq<char>, sep: char) -> Seq<Seq<char>>
    decreases s.len(),
{
    if s.len() == 0 {
        seq![Seq::<char>::empty()]
    } else if s[0] == sep {
        seq![Seq::<char>::empty()] + split_on(s.drop_first(), sep)
    } else {
        let rest = split_on(s.drop_first(), sep);
        seq![seq![s[0]] + rest[0]] + rest.drop_first()
    }
}

/// A split always yields at least one field.
pub proof fn lemma_split_nonempty(s: Seq<char>, sep: char)
    ensures
        split_on(s, sep).len() >= 1,
    decreases s.len(),
{
    if s.len() > 0 {
        lemma_split_nonempty(s.drop_first(), sep);
    }
}

/// Splitting a separator-free field, a separator, and a remainder yields the
/// field followed by the split of the remainder.
pub proof fn lemma_split_prepend_field(a: Seq<char>, b: Seq<char>, sep: char)
    requires
        forall|j: int| 0 <= j < a.len() ==> a[j] != sep,
    ensures
        split_on(a + seq![sep] + b, sep) == seq![a] + split_on(b, sep),
    decreases a.len(),
{
    let s = a + seq![sep] + b;
    if a.len() == 0 {
        assert(s =~= seq![sep] + b);
        assert(s[0] == sep);
        assert(s.drop_first() =~= b);
        assert(a =~= Seq::<char>::empty());
        assert(split_on(s, sep) =~= seq![a] + split_on(b, sep));
    } else {
        assert(s[0] == a[0]);
        assert(s.drop_first() =~= a.drop_first() + seq![sep] + b);
        assert forall|j: int| 0 <= j < a.drop_first().len() implies a.drop_first()[j] != sep by {
            assert(a.drop_first()[j] == a[j + 1]);
        }
        lemma_split_prepend_field(a.drop_first(), b, sep);
        lemma_split_nonempty(b, sep);
        let rest = split_on(s.drop_first(), sep);
        assert(rest == seq![a.drop_first()] + split_on(b, sep));
        assert(rest[0] == a.drop_first());
        assert(seq![s[0]] + rest[0] =~= a);
        assert(rest.drop_first() =~= split_on(b, sep));
        assert(split_on(s, sep) =~= seq![a] + split_on(b, sep));
    }
}

/// The views of a vector of character vectors.
pub open spec fn vecs_model(vs: Seq<Vec<char>>) -> Seq<Seq<char>> {
    vs.map_values(|v: Vec<char>| v@)
}

/// `s` split on `sep`, as executable vectors.
pub fn split_chars(s: &Vec<char>, sep: char) -> (r: Vec<Vec<char>>)
    ensures
        vecs_model(r@) == split_on(s@, sep),
{
    let mut pieces: Vec<Vec<char>> = Vec::new();
    let mut cur: Vec<char> = Vec::new();
    let mut i: usize = 0;
    proof {
        lemma_split_nonempty(s@, sep);
        assert(s@.subrange(0, s@.len() as int) =~= s@);
        assert(vecs_model(pieces@) =~= Seq::<Seq<char>>::empty());
        assert(cur@ + split_on(s@, sep)[0] =~= split_on(s@, sep)[0]);
        assert(Seq::<Seq<char>>::empty() + seq![split_on(s@, sep)[0]] + split_on(
            s@,
            sep,
        ).drop_first() =~= split_on(s@, sep));
    }
    while i < s.len()
        invariant
            i <= s@.len(),
            split_on(s@, sep) == ({
                let rest = split_on(s@.subrange(i as int, s@.len() as int), sep);
                vecs_model(pieces@) + seq![cur@ + rest[0]] + rest.drop_first()
            }),
        decreases s@.len() - i,
    {
        let ghost tail = s@.subrange(i as int, s@.len() as int);
        let ghost p0 = pieces@;
        let ghost c0 = cur@;
        proof {
            lemma_split_nonempty(s@.subrange(i + 1, s@.len() as int), sep);
            lemma_split_nonempty(tail, sep);
            assert(tail.len() > 0);
            assert(tail[0] == s@[i as int]);
            assert(tail.drop_first() =~= s@.subrange(i + 1, s@.len() as int));
        }
        let ghost rest1 = split_on(s@.subrange(i + 1, s@.len() as int), sep);
        if s[i] == sep {
            let finished = cur;
            cur = Vec::new();
            pieces.push(finished);
            proof {
                assert(split_on(tail, sep) == seq![Seq::<char>::empty()] + rest1);
                assert(split_on(tail, sep)[0] =~= Seq::<char>::empty());
                assert(split_on(tail, sep).drop_first() =~= rest1);
                assert(c0 + split_on(tail, sep)[0] =~= c0);
                assert(vecs_model(pieces@) =~= vecs_model(p0).push(c0));
                assert(cur@ + rest1[0] =~= rest1[0]);
                assert(rest1 =~= seq![rest1[0]] + rest1.drop_first());
                assert(vecs_model(pieces@) + seq![cur@ + rest1[0]] + rest1.drop_first()
                    =~= vecs_model(p0) + seq![c0 + split_on(tail, sep)[0]] + split_on(
                    tail,
                    sep,
                ).drop_first());
            }
        } else {
            cur.push(s[i]);
            proof {
                assert(split_on(tail, sep) == seq![seq![tail[0]] + rest1[0]]
                    + rest1.drop_first());
                assert(split_on(tail, sep)[0] == seq![tail[0]] + rest1[0]);
                assert(split_on(tail, sep).drop_first() =~= rest1.drop_first());
                assert(cur@ =~= c0.push(tail[0]));
                assert(cur@ + rest1[0] =~= c0 + (seq![tail[0]] + rest1[0]));
                assert(vecs_model(pieces@) + seq![cur@ + rest1[0]] + rest1.drop_first()
                    =~= vecs_model(p0) + seq![c0 + split_on(tail, sep)[0]] + split_on(
                    tail,
                    sep,
                ).drop_first());
            }
        }
        i = i + 1;
    }
    proof {
        let tail = s@.subrange(i as int, s@.len() as int);
        assert(tail =~= Seq::<char>::empty());
        assert(split_on(tail, sep) == seq![Seq::<char>::empty()]);
        assert(cur@ + split_on(tail, sep)[0] =~= cur@);
        assert(split_on(tail, sep).drop_first() =~= Seq::<Seq<char>>::empty());
        assert(vecs_model(pieces@) + seq![cur@] + Seq::<Seq<char>>::empty() =~= vecs_model(
            pieces@,
        ).push(cur@));
    }
    let ghost p1 = pieces@;
    let ghost c1 = cur@;
    pieces.push(cur);
    proof {
        assert(vecs_model(pieces@) =~= vecs_model(p1).push(c1));
    }
    pieces
}

/// The serialized form of the cell at one column: its raw text, or nothing
/// when the column is empty.
pub open spec fn field_of(r: RowModel, col: usize) -> Seq<char> {
    if r.cells.dom().contains(col) {
        r.cells[col].text
    } else {
        Seq::empty()
    }
}

/// The serialized text of a row from column `col` on: each field followed by
/// the field separator.
pub open spec fn row_text_from(r: RowModel, col: int) -> Seq<char>
    decreases r.max_col + 1 - col,
{
    if col < 0 || col > r.max_col {
        Seq::empty()
    } else {
        field_of(r, col as usize) + seq![FIELD_SEP] + row_text_from(r, col + 1)
    }
}

/// The serialized text of one row.
pub open spec fn row_text(r: RowModel) -> Seq<char> {
    row_text_from(r, 0)
}

/// The serialized line for one row index: empty when the row is absent.
pub open spec fn line_of(d: DocModel, row: usize) -> Seq<char> {
    if d.rows.dom().contains(row) {
        row_text(d.rows[row])
    } else {
        Seq::empty()
    }
}

/// The serialized text of a document from row `row` on: each line followed
/// by the record separator.
pub open spec fn doc_text_from(d: DocModel, row: int) -> Seq<char>
    decreases d.max_row + 1 - row,
{
    if row < 0 || row > d.max_row {
        Seq::empty()
    } else {
        line_of(d, row as usize) + seq![RECORD_SEP] + doc_text_from(d, row + 1)
    }
}

/// The serialized text of a document: rows `0 ..= max_row`, each cell's raw
/// text followed by the field separator, each row closed by the record
/// separator.
pub open spec fn doc_text(d: DocModel) -> Seq<char> {
    doc_text_from(d, 0)
}

/// The row materialized from the fields of one line: every non-empty field
/// becomes a cell holding that text.
pub open spec fn row_of_fields(fields: Seq<Seq<char>>) -> RowModel
    decreases fields.len(),
{
    if fields.len() == 0 {
        row_empty()
    } else {
        let r = row_of_fields(fields.drop_last());
        if fields.last().len() > 0 {
            row_init_cell_at(r, (fields.len() - 1) as usize, fields.last())
        } else {
            r
        }
    }
}

/// The document materialized from the lines of a persisted file: every
/// non-empty line becomes a row at its line index, and `max_row` tracks the
/// last non-empty line.
pub open spec fn doc_of_lines(lines: Seq<Seq<char>>, filename: Option<Seq<char>>) -> DocModel
    decreases lines.len(),
{
    if lines.len() == 0 {
        DocModel { rows: Map::empty(), max_row: 0, filename }
    } else {
        let d = doc_of_lines(lines.drop_last(), filename);
        if lines.last().len() > 0 {
            DocModel {
                rows: d.rows.insert(
                    (lines.len() - 1) as usize,
                    row_of_fields(split_on(lines.last(), FIELD_SEP)),
                ),
                max_row: (lines.len() - 1) as usize,
                ..d
            }
        } else {
            d
        }
    }
}

/// The document parsed from a persisted text, bound to `filename`.
pub open spec fn spec_from_text(s: Seq<char>, filename: Option<Seq<char>>) -> DocModel {
    doc_of_lines(split_on(s, RECORD_SEP), filename)
}

/// A text the persisted format can carry losslessly: non-empty, with no
/// field or record separator in it.
pub open spec fn text_ok(t: Seq<char>) -> bool {
    t.len() > 0 && forall|j: int| 0 <= j < t.len() ==> t[j] != FIELD_SEP && t[j] != RECORD_SEP
}

/// Every cell of the row carries a text the format can hold.
pub open spec fn row_serializable(r: RowModel) -> bool {
    forall|c: usize| #[trigger] r.cells.dom().contains(c) ==> text_ok(r.cells[c].text)
}

/// Every cell of the document carries a text the format can hold.
pub open spec fn doc_serializable(d: DocModel) -> bool {
    forall|k: usize| #[trigger] d.rows.dom().contains(k) ==> row_serializable(d.rows[k])
}


/// No character of a serialized row is the record separator.
proof fn lemma_row_text_no_record_sep(r: RowModel, col: int)
    requires
        row_serializable(r),
    ensures
        forall|j: int|
            0 <= j < row_text_from(r, col).len() ==> row_text_from(r, col)[j] != RECORD_SEP,
    decreases r.max_col + 1 - col,
{
    if col < 0 || col > r.max_col {
    } else {
        lemma_row_text_no_record_sep(r, col + 1);
        let f = field_of(r, col as usize);
        let t = row_text_from(r, col);
        assert forall|j: int| 0 <= j < t.len() implies t[j] != RECORD_SEP by {
            if j < f.len() {
                assert(t[j] == f[j]);
                assert(r.cells.dom().contains(col as usize));
            } else if j == f.len() {
                assert(t[j] == FIELD_SEP);
            } else {
                assert(t[j] == row_text_from(r, col + 1)[j - f.len() - 1]);
            }
        }
    }
}

/// The fields of a row from column `col` on, one per column up to `max_col`.
pub open spec fn fields_from(r: RowModel, col: int) -> Seq<Seq<char>> {
    Seq::new(
        if col <= r.max_col {
            (r.max_col + 1 - col) as nat
        } else {
            0
        },
        |j: int| field_of(r, (col + j) as usize),
    )
}

/// Splitting a serialized row on the field separator recovers its fields,
/// followed by one trailing empty field.
proof fn lemma_split_row_text(r: RowModel, col: int)
    requires
        row_serializable(r),
        0 <= col,
    ensures
        split_on(row_text_from(r, col), FIELD_SEP) == fields_from(r, col) + seq![
            Seq::<char>::empty(),
        ],
    decreases r.max_col + 1 - col,
{
    if col > r.max_col {
        assert(row_text_from(r, col) =~= Seq::<char>::empty());
        assert(split_on(row_text_from(r, col), FIELD_SEP) == seq![Seq::<char>::empty()]);
        assert(fields_from(r, col) + seq![Seq::<char>::empty()] =~= seq![Seq::<char>::empty()]);
    } else {
        lemma_split_row_text(r, col + 1);
        let f = field_of(r, col as usize);
        assert forall|j: int| 0 <= j < f.len() implies f[j] != FIELD_SEP by {
            assert(r.cells.dom().contains(col as usize));
        }
        lemma_split_prepend_field(f, row_text_from(r, col + 1), FIELD_SEP);
        assert(fields_from(r, col) =~= seq![f] + fields_from(r, col + 1));
        assert(split_on(row_text_from(r, col), FIELD_SEP) =~= fields_from(r, col) + seq![
            Seq::<char>::empty(),
        ]);
    }
}

/// The row parsed back from the first `n` fields holds exactly the original
/// cells' texts at columns below `n`.
proof fn lemma_row_of_fields_prefix(r: RowModel, n: int)
    requires
        row_serializable(r),
        r.max_col < usize::MAX,
        0 <= n <= r.max_col + 1,
    ensures
        ({
            let r2 = row_of_fields(fields_from(r, 0).subrange(0, n));
            forall|c: usize|
                (#[trigger] r2.cells.dom().contains(c) <==> (c < n && r.cells.dom().contains(c)))
                    && (r2.cells.dom().contains(c) ==> r2.cells[c]
                    == crate::cell::cell_of_text(r.cells[c].text))
        }),
    decreases n,
{
    let fields = fields_from(r, 0);
    if n == 0 {
        assert(fields.subrange(0, 0) =~= Seq::<Seq<char>>::empty());
    } else {
        lemma_row_of_fields_prefix(r, n - 1);
        assert(fields.subrange(0, n).drop_last() =~= fields.subrange(0, n - 1));
        assert(fields.subrange(0, n).last() == field_of(r, (n - 1) as usize));
        let r1 = row_of_fields(fields.subrange(0, n - 1));
        let r2 = row_of_fields(fields.subrange(0, n));
        if r.cells.dom().contains((n - 1) as usize) {
            assert(field_of(r, (n - 1) as usize).len() > 0);
            assert(r2 == row_init_cell_at(r1, (n - 1) as usize, r.cells[(n - 1) as usize].text));
        } else {
            assert(field_of(r, (n - 1) as usize).len() == 0);
            assert(r2 == r1);
        }
    }
}

/// A row's serialized text parses back to a row with exactly the original
/// cells and texts.
proof fn lemma_row_round_trip(r: RowModel)
    requires
        row_wf(r),
        row_serializable(r),
        r.max_col < usize::MAX,
    ensures
        ({
            let r2 = row_of_fields(split_on(row_text(r), FIELD_SEP));
            forall|c: usize|
                (#[trigger] r2.cells.dom().contains(c) <==> r.cells.dom().contains(c)) && (
                r2.cells.dom().contains(c) ==> r2.cells[c] == crate::cell::cell_of_text(
                    r.cells[c].text,
                ))
        }),
{
    lemma_split_row_text(r, 0);
    let fields = fields_from(r, 0);
    assert(split_on(row_text(r), FIELD_SEP).drop_last() =~= fields);
    assert(split_on(row_text(r), FIELD_SEP).last() =~= Seq::<char>::empty());
    assert(row_of_fields(split_on(row_text(r), FIELD_SEP)) == row_of_fields(fields));
    assert(fields.subrange(0, fields.len() as int) =~= fields);
    lemma_row_of_fields_prefix(r, r.max_col + 1);
    assert forall|c: usize| #[trigger] r.cells.dom().contains(c) implies c < r.max_col + 1 by {}
}

/// The lines of a serialized document from row `row` on.
pub open spec fn lines_from(d: DocModel, row: int) -> Seq<Seq<char>> {
    Seq::new(
        if row <= d.max_row {
            (d.max_row + 1 - row) as nat
        } else {
            0
        },
        |j: int| line_of(d, (row + j) as usize),
    )
}

/// Splitting a serialized document on the record separator recovers its
/// lines, followed by one trailing empty line.
proof fn lemma_split_doc_text(d: DocModel, row: int)
    requires
        doc_serializable(d),
        0 <= row,
    ensures
        split_on(doc_text_from(d, row), RECORD_SEP) == lines_from(d, row) + seq![
            Seq::<char>::empty(),
        ],
    decreases d.max_row + 1 - row,
{
    if row > d.max_row {
        assert(doc_text_from(d, row) =~= Seq::<char>::empty());
        assert(split_on(doc_text_from(d, row), RECORD_SEP) == seq![Seq::<char>::empty()]);
        assert(lines_from(d, row) + seq![Seq::<char>::empty()] =~= seq![Seq::<char>::empty()]);
    } else {
        lemma_split_doc_text(d, row + 1);
        let line = line_of(d, row as usize);
        assert forall|j: int| 0 <= j < line.len() implies line[j] != RECORD_SEP by {
            assert(d.rows.dom().contains(row as usize));
            lemma_row_text_no_record_sep(d.rows[row as usize], 0);
        }
        lemma_split_prepend_field(line, doc_text_from(d, row + 1), RECORD_SEP);
        assert(lines_from(d, row) =~= seq![line] + lines_from(d, row + 1));
        assert(split_on(doc_text_from(d, row), RECORD_SEP) =~= lines_from(d, row) + seq![
            Seq::<char>::empty(),
        ]);
    }
}

/// Two rows that hold cells at the same columns with the same raw texts.
pub open spec fn same_texts_row(a: RowModel, b: RowModel) -> bool {
    forall|c: usize|
        (#[trigger] a.cells.dom().contains(c) <==> b.cells.dom().contains(c)) && (
        a.cells.dom().contains(c) ==> a.cells[c].text == b.cells[c].text)
}

/// The document parsed back from the first `n` lines holds, at every row
/// index below `n` occupied in the original, a row with the same texts.
proof fn lemma_doc_of_lines_prefix(d: DocModel, n: int, filename: Option<Seq<char>>)
    requires
        doc_wf(d),
        doc_serializable(d),
        d.max_row < usize::MAX,
        crate::document::doc_cols_below_max(d),
        0 <= n <= d.max_row + 1,
    ensures
        ({
            let d2 = doc_of_lines(lines_from(d, 0).subrange(0, n), filename);
            forall|k: usize|
                (#[trigger] d2.rows.dom().contains(k) <==> (k < n && d.rows.dom().contains(k)))
                    && (d2.rows.dom().contains(k) ==> same_texts_row(d2.rows[k], d.rows[k]))
        }),
    decreases n,
{
    let lines = lines_from(d, 0);
    if n == 0 {
        assert(lines.subrange(0, 0) =~= Seq::<Seq<char>>::empty());
    } else {
        lemma_doc_of_lines_prefix(d, n - 1, filename);
        assert(lines.subrange(0, n).drop_last() =~= lines.subrange(0, n - 1));
        assert(lines.subrange(0, n).last() == line_of(d, (n - 1) as usize));
        let d1 = doc_of_lines(lines.subrange(0, n - 1), filename);
        let d2 = doc_of_lines(lines.subrange(0, n), filename);
        let k1 = (n - 1) as usize;
        if d.rows.dom().contains(k1) {
            let rm = d.rows[k1];
            assert(line_of(d, k1) == row_text(rm));
            assert(row_text_from(rm, 0).len() > 0);
            lemma_row_round_trip(rm);
            assert(d2.rows == d1.rows.insert(k1, row_of_fields(split_on(row_text(rm), FIELD_SEP))));
            assert(same_texts_row(d2.rows[k1], d.rows[k1]));
        } else {
            assert(line_of(d, k1) =~= Seq::<char>::empty());
            assert(d2 == d1);
        }
    }
}

/// Saving and then loading restores the document's content: at every
/// coordinate occupied before, the reloaded document holds a cell with the
/// same raw text. This holds provided every stored text is non-empty and
/// contains neither separator, and the grid's recorded bounds leave room to
/// index one past them.
pub proof fn lemma_save_load_round_trip(d: DocModel, filename: Option<Seq<char>>)
    requires
        doc_wf(d),
        doc_serializable(d),
        d.max_row < usize::MAX,
        crate::document::doc_cols_below_max(d),
    ensures
        ({
            let d2 = spec_from_text(doc_text(d), filename);
            forall|col: usize, row: usize|
                match #[trigger] doc_cell_at(d, col, row) {
                    Some(cm) => match doc_cell_at(d2, col, row) {
                        Some(cm2) => cm2.text == cm.text,
                        None => false,
                    },
                    None => true,
                }
        }),
{
    lemma_split_doc_text(d, 0);
    let lines = lines_from(d, 0);
    let pieces = split_on(doc_text(d), RECORD_SEP);
    assert(pieces.drop_last() =~= lines);
    assert(pieces.last() =~= Seq::<char>::empty());
    let d2 = spec_from_text(doc_text(d), filename);
    assert(d2 == doc_of_lines(lines, filename));
    assert(lines.subrange(0, lines.len() as int) =~= lines);
    lemma_doc_of_lines_prefix(d, d.max_row + 1, filename);
    assert forall|col: usize, row: usize|
        match #[trigger] doc_cell_at(d, col, row) {
            Some(cm) => match doc_cell_at(d2, col, row) {
                Some(cm2) => cm2.text == cm.text,
                None => false,
            },
            None => true,
        } by {
        if d.rows.dom().contains(row) && d.rows[row].cells.dom().contains(col) {
            assert(row < d.max_row + 1);
            assert(d2.rows.dom().contains(row));
            assert(same_texts_row(d2.rows[row], d.rows[row]));
            assert(d2.rows[row].cells.dom().contains(col));
        }
    }
}

} // verus!
