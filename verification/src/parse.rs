//! Step file parsing.
//!
//! A step file holds one record per line, tab separated, with no header
//! row.  Parsing is fail fast: the first malformed row denies the whole
//! file, and no partial record list is ever returned.

use crate::num::{is_float_field, parse_u32};
use crate::record::{field_ok, record_of_row, row_valid, ParticleRecord};
use crate::text::{split_on, split_str};
use vstd::prelude::*;

verus! {

/// Why a step file was rejected: a row without exactly eleven fields, or
/// a numeric column whose text is not a well formed number.  Rows and
/// columns count from zero.
#[derive(Clone, Copy, Debug, PartialEq, Eq, Structural)]
pub enum ParseError {
    WrongFieldCount { row: usize, found: usize },
    BadNumber { row: usize, col: usize },
}

/// The first numeric column at or after `c` whose text is malformed; 11
/// when the row's columns are all well formed.
pub open spec fn first_bad_col_from(f: Seq<Seq<char>>, c: int) -> int
    decreases 11 - c,
{
    if c < 0 || c >= 11 {
        11
    } else if !field_ok(f, c) {
        c
    } else {
        first_bad_col_from(f, c + 1)
    }
}

/// The error an invalid row is reported with.
pub open spec fn row_error(line: Seq<char>, row: int) -> ParseError {
    let f = split_on(line, '\t');
    if f.len() != 11 {
        ParseError::WrongFieldCount { row: row as usize, found: f.len() as usize }
    } else {
        ParseError::BadNumber { row: row as usize, col: first_bad_col_from(f, 0) as usize }
    }
}

/// One trailing carriage return removed, if present, so that rows read
/// alike from LF and CRLF terminated files.
pub open spec fn strip_cr(line: Seq<char>) -> Seq<char> {
    if line.len() > 0 && line.last() == '\r' {
        line.drop_last()
    } else {
        line
    }
}

/// The rows of a step file: its text split on newlines, with one final
/// empty segment (left by a terminating newline) dropped, and one
/// trailing carriage return stripped from each row.
pub open spec fn line_seqs(input: Seq<char>) -> Seq<Seq<char>> {
    let raw = split_on(input, '\n');
    let rows = if raw.last().len() == 0 {
        raw.drop_last()
    } else {
        raw
    };
    rows.map_values(|line: Seq<char>| strip_cr(line))
}

pub open spec fn all_rows_valid(lines: Seq<Seq<char>>) -> bool {
    forall|i: int| 0 <= i < lines.len() ==> row_valid(#[trigger] lines[i])
}

/// The first invalid row at or after `i`; the row count when all are valid.
pub open spec fn first_bad_row_from(lines: Seq<Seq<char>>, i: int) -> int
    decreases lines.len() - i,
{
    if i < 0 || i >= lines.len() {
        lines.len() as int
    } else if !row_valid(lines[i]) {
        i
    } else {
        first_bad_row_from(lines, i + 1)
    }
}

proof fn lemma_first_bad_row(lines: Seq<Seq<char>>, k: int, i: int)
    requires
        0 <= k <= i < lines.len(),
        forall|j: int| k <= j < i ==> row_valid(#[trigger] lines[j]),
        !row_valid(lines[i]),
    ensures
        first_bad_row_from(lines, k) == i,
    decreases i - k,
{
    if k < i {
        lemma_first_bad_row(lines, k + 1, i);
    }
}

proof fn lemma_first_bad_col(f: Seq<Seq<char>>, k: int, c: int)
    requires
        0 <= k <= c < 11,
        forall|j: int| k <= j < c ==> field_ok(f, j),
        !field_ok(f, c),
    ensures
        first_bad_col_from(f, k) == c,
    decreases c - k,
{
    if k < c {
        lemma_first_bad_col(f, k + 1, c);
    }
}

/// Parses one row.  `row` only tags any error with the row's position.
pub fn parse_row(line: &str, row: usize) -> (r: Result<ParticleRecord, ParseError>)
    ensures
        r is Ok <==> row_valid(line@),
        r is Ok ==> r->Ok_0@ == record_of_row(split_on(line@, '\t')),
        r is Err ==> r->Err_0 == row_error(line@, row as int),
{
    let ghost f = split_on(line@, '\t');
    let mut fields = split_str(line, '\t');
    if fields.len() != 11 {
        return Err(ParseError::WrongFieldCount { row, found: fields.len() });
    }
    let id = match parse_u32(fields[0].as_str()) {
        Some(v) => v,
        None => {
            proof {
                lemma_first_bad_col(f, 0, 0);
            }
            return Err(ParseError::BadNumber { row, col: 0 });
        },
    };
    let mut c: usize = 2;
    while c <= 8
        invariant
            2 <= c <= 9,
            fields@.len() == 11,
            f.len() == 11,
            f == split_on(line@, '\t'),
            forall|j: int| 0 <= j < 11 ==> fields@[j]@ == #[trigger] f[j],
            field_ok(f, 0),
            forall|j: int| 2 <= j < c ==> field_ok(f, j),
        decreases 9 - c,
    {
        if !is_float_field(fields[c].as_str()) {
            proof {
                assert(!field_ok(f, c as int));
                lemma_first_bad_col(f, 0, c as int);
            }
            return Err(ParseError::BadNumber { row, col: c });
        }
        c = c + 1;
    }
    let contact = match parse_u32(fields[9].as_str()) {
        Some(v) => v,
        None => {
            proof {
                lemma_first_bad_col(f, 0, 9);
            }
            return Err(ParseError::BadNumber { row, col: 9 });
        },
    };
    let contact_ids = fields.pop().unwrap();
    let _contact_text = fields.pop().unwrap();
    let r = fields.pop().unwrap();
    let vz = fields.pop().unwrap();
    let vy = fields.pop().unwrap();
    let vx = fields.pop().unwrap();
    let z = fields.pop().unwrap();
    let y = fields.pop().unwrap();
    let x = fields.pop().unwrap();
    let cell_type = fields.pop().unwrap();
    let rec = ParticleRecord { id, cell_type, x, y, z, vx, vy, vz, r, contact, contact_ids };
    proof {
        assert(forall|j: int| 0 <= j < 11 ==> field_ok(f, j));
        assert(rec@ == record_of_row(f));
    }
    Ok(rec)
}

/// Parses a whole step file, fail fast.
///
/// On success the records stand in the same order as the input rows, one
/// per row.  On failure — the first row that does not split into exactly
/// eleven fields, or whose numeric column holds malformed text — the whole
/// file is denied and the error names that row, so no partial list ever
/// leaves this function.
pub fn parse_file(input: &str) -> (r: Result<Vec<ParticleRecord>, ParseError>)
    ensures
        ({
            let lines = line_seqs(input@);
            match r {
                Ok(records) => {
                    &&& all_rows_valid(lines)
                    &&& records@.len() == lines.len()
                    &&& forall|i: int|
                        0 <= i < lines.len() ==> records@[i]@ == record_of_row(
                            split_on(#[trigger] lines[i], '\t'),
                        )
                },
                Err(e) => {
                    &&& !all_rows_valid(lines)
                    &&& e == row_error(
                        lines[first_bad_row_from(lines, 0)],
                        first_bad_row_from(lines, 0),
                    )
                },
            }
        }),
{
    let ghost lines_spec = line_seqs(input@);
    let mut lines = split_str(input, '\n');
    proof {
        crate::text::lemma_split_on_nonempty(input@, '\n');
    }
    let last = lines.len() - 1;
    if lines[last].as_str().unicode_len() == 0 {
        lines.pop();
    }
    proof {
        assert(lines@.len() == lines_spec.len());
        assert(forall|j: int|
            0 <= j < lines@.len() ==> strip_cr(lines@[j]@) == #[trigger] lines_spec[j]);
    }
    let mut records: Vec<ParticleRecord> = Vec::new();
    let mut i: usize = 0;
    while i < lines.len()
        invariant
            lines_spec == line_seqs(input@),
            lines@.len() == lines_spec.len(),
            forall|j: int| 0 <= j < lines@.len() ==> strip_cr(lines@[j]@) == #[trigger] lines_spec[j],
            i <= lines@.len(),
            records@.len() == i,
            forall|j: int| 0 <= j < i ==> row_valid(#[trigger] lines_spec[j]),
            forall|j: int|
                0 <= j < i ==> records@[j]@ == record_of_row(
                    split_on(#[trigger] lines_spec[j], '\t'),
                ),
        decreases lines@.len() - i,
    {
        let line = lines[i].as_str();
        let n = line.unicode_len();
        let row: &str = if n > 0 && line.get_char(n - 1) == '\r' {
            line.substring_char(0, n - 1)
        } else {
            line
        };
        proof {
            assert(row@ =~= strip_cr(line@));
            assert(row@ == lines_spec[i as int]);
        }
        match parse_row(row, i) {
            Ok(rec) => {
                records.push(rec);
            },
            Err(e) => {
                proof {
                    lemma_first_bad_row(lines_spec, 0, i as int);
                }
                return Err(e);
            },
        }
        i = i + 1;
    }
    Ok(records)
}

/// Law: a row that does not split into exactly eleven tab separated
/// fields is invalid, so by `parse_file`'s contract any file holding it
/// is denied whole and no records are returned.
pub proof fn lemma_wrong_field_count_rejects(line: Seq<char>)
    requires
        split_on(line, '\t').len() != 11,
    ensures
        !row_valid(line),
{
}

/// Law: a numeric column holding text that is not a well formed number
/// makes its row invalid, so by `parse_file`'s contract any file holding
/// that row is denied whole.
pub proof fn lemma_bad_number_rejects(line: Seq<char>, c: int)
    requires
        0 <= c < 11,
        c == 0 || c == 9 || (2 <= c && c <= 8),
        !field_ok(split_on(line, '\t'), c),
    ensures
        !row_valid(line),
{
}

/// Law: one invalid row anywhere in a file leaves the whole file invalid,
/// so `parse_file` returns an error for it, never a shortened list.
pub proof fn lemma_invalid_row_rejects_file(lines: Seq<Seq<char>>, i: int)
    requires
        0 <= i < lines.len(),
        !row_valid(lines[i]),
    ensures
        !all_rows_valid(lines),
{
}

} // verus!
