//! The formula evaluator: scans the leading digit run of a formula body and
//! renders its value as the display string, or a diagnostic string when the
//! body does not start with a digit or the value does not fit.

use vstd::prelude::*;

use crate::document::Document;

verus! {

/// A decimal digit.
pub open spec fn is_digit_char(c: char) -> bool {
    '0' <= c && c <= '9'
}

/// The numeric value of a decimal digit character.
pub open spec fn digit_val(c: char) -> nat {
    (c as u32 - 0x30) as nat
}

/// The decimal digit character for a value below ten.
pub open spec fn digit_char(d: nat) -> char {
    ((d + 0x30) as u8) as char
}

/// The value of a run of decimal digits, most significant first.
pub open spec fn digits_value(ds: Seq<char>) -> nat
    decreases ds.len(),
{
    if ds.len() == 0 {
        0
    } else {
        digits_value(ds.drop_last()) * 10 + digit_val(ds.last())
    }
}

/// The index just past the run of digits that starts at `from`.
pub open spec fn digit_run_end(s: Seq<char>, from: int) -> int
    decreases s.len() - from,
{
    if from < 0 || from >= s.len() || !is_digit_char(s[from]) {
        from
    } else {
        digit_run_end(s, from + 1)
    }
}

/// The decimal rendering of a number, without leading zeros.
pub open spec fn dec_digits(n: nat) -> Seq<char>
    decreases n,
{
    if n < 10 {
        seq![digit_char(n)]
    } else {
        dec_digits(n / 10).push(digit_char(n % 10))
    }
}

/// The diagnostic shown when the formula body does not start with a digit:
/// the recognized-but-unimplemented cell-reference branch.
pub open spec fn parse_error_text() -> Seq<char> {
    seq!['#', 'E', 'R', 'R', ':', 'p', 'a', 'r', 's', 'e']
}

/// The diagnostic shown when the digit run names a value too large to
/// evaluate.
pub open spec fn range_error_text() -> Seq<char> {
    seq!['#', 'E', 'R', 'R', ':', 'r', 'a', 'n', 'g', 'e']
}

/// What the evaluator displays for a formula body: the value of the leading
/// digit run, rendered in decimal, or a diagnostic.
pub open spec fn spec_parse_formula(s: Seq<char>) -> Seq<char> {
    let end = digit_run_end(s, 0);
    if end == 0 {
        parse_error_text()
    } else if digits_value(s.subrange(0, end)) > u32::MAX {
        range_error_text()
    } else {
        dec_digits(digits_value(s.subrange(0, end)))
    }
}

/// What the evaluator displays: the empty string when there is no formula
/// body (the cell text did not start with the marker), else as
/// `spec_parse_formula`.
pub open spec fn spec_parse(input: Option<Seq<char>>) -> Seq<char> {
    match input {
        Some(s) => spec_parse_formula(s),
        None => Seq::empty(),
    }
}

/// The value of a prefix of a digit run never exceeds the value of the whole
/// run.
proof fn lemma_digits_value_mono(ds: Seq<char>, k: int)
    requires
        0 <= k <= ds.len(),
    ensures
        digits_value(ds.subrange(0, k)) <= digits_value(ds),
    decreases ds.len() - k,
{
    if k == ds.len() {
        assert(ds.subrange(0, k) =~= ds);
    } else {
        assert(ds.subrange(0, k + 1).drop_last() =~= ds.subrange(0, k));
        assert(ds.subrange(0, k + 1).last() == ds[k]);
        lemma_digits_value_mono(ds, k + 1);
    }
}

/// The decimal digit character for a value below ten.
fn digit_char_exec(d: u32) -> (c: char)
    requires
        d < 10,
    ensures
        c == digit_char(d as nat),
{
    (d as u8 + 0x30) as char
}

/// The decimal rendering of `n`, without leading zeros.
fn u32_to_decimal(n: u32) -> (r: Vec<char>)
    ensures
        r@ == dec_digits(n as nat),
    decreases n,
{
    if n < 10 {
        let mut v: Vec<char> = Vec::new();
        v.push(digit_char_exec(n));
        proof {
            assert(v@ =~= dec_digits(n as nat));
        }
        v
    } else {
        let mut v = u32_to_decimal(n / 10);
        v.push(digit_char_exec(n % 10));
        proof {
            assert(v@ =~= dec_digits(n as nat));
        }
        v
    }
}

fn parse_error_exec() -> (r: Vec<char>)
    ensures
        r@ == parse_error_text(),
{
    let mut v: Vec<char> = Vec::new();
    v.push('#');
    v.push('E');
    v.push('R');
    v.push('R');
    v.push(':');
    v.push('p');
    v.push('a');
    v.push('r');
    v.push('s');
    v.push('e');
    proof {
        assert(v@ =~= parse_error_text());
    }
    v
}

fn range_error_exec() -> (r: Vec<char>)
    ensures
        r@ == range_error_text(),
{
    let mut v: Vec<char> = Vec::new();
    v.push('#');
    v.push('E');
    v.push('R');
    v.push('R');
    v.push(':');
    v.push('r');
    v.push('a');
    v.push('n');
    v.push('g');
    v.push('e');
    proof {
        assert(v@ =~= range_error_text());
    }
    v
}

/// Evaluate a formula body against the document. `None` means the cell text
/// did not start with the formula marker, and evaluates to the empty string.
/// The document is unused until the cell-reference branch is implemented; it
/// is the designed extension point for arithmetic over other cells.
#[allow(unused_variables)]
pub fn parse(input: Option<&Vec<char>>, document: &Document) -> (r: Vec<char>)
    ensures
        r@ == spec_parse(
            match input {
                Some(v) => Some(v@),
                None => None,
            },
        ),
{
    let s = match input {
        Some(s) => s,
        None => {
            let empty: Vec<char> = Vec::new();
            proof {
                assert(empty@ =~= Seq::<char>::empty());
            }
            return empty;
        },
    };
    // Scan the leading digit run.
    let mut i: usize = 0;
    while i < s.len() && s[i] >= '0' && s[i] <= '9'
        invariant
            i <= s@.len(),
            forall|j: int| 0 <= j < i ==> is_digit_char(#[trigger] s@[j]),
            digit_run_end(s@, 0) == digit_run_end(s@, i as int),
        decreases s@.len() - i,
    {
        i = i + 1;
    }
    proof {
        assert(digit_run_end(s@, 0) == i);
    }
    if i == 0 {
        return parse_error_exec();
    }
    // Accumulate the value of the digit run, stopping when it can no longer
    // fit the evaluator's number type.
    let ghost run = s@.subrange(0, i as int);
    let mut acc: u64 = 0;
    let mut j: usize = 0;
    while j < i
        invariant
            input == Some(s),
            0 < i,
            j <= i <= s@.len(),
            digit_run_end(s@, 0) == i as int,
            forall|t: int| 0 <= t < i ==> is_digit_char(#[trigger] s@[t]),
            run == s@.subrange(0, i as int),
            acc == digits_value(s@.subrange(0, j as int)),
            acc <= u32::MAX,
        decreases i - j,
    {
        let c = s[j];
        let d = (c as u32) - 0x30;
        proof {
            assert(is_digit_char(s@[j as int]));
            assert(d == digit_val(s@[j as int]));
            assert(s@.subrange(0, j + 1).drop_last() =~= s@.subrange(0, j as int));
            assert(s@.subrange(0, j + 1).last() == s@[j as int]);
        }
        acc = acc * 10 + (d as u64);
        j = j + 1;
        if acc > u32::MAX as u64 {
            proof {
                assert(acc == digits_value(s@.subrange(0, j as int)));
                assert(run.subrange(0, j as int) =~= s@.subrange(0, j as int));
                lemma_digits_value_mono(run, j as int);
                assert(digits_value(run) > u32::MAX);
            }
            return range_error_exec();
        }
    }
    proof {
        assert(s@.subrange(0, j as int) =~= run);
    }
    u32_to_decimal(acc as u32)
}

} // verus!
