use create_image::parse::{parse_file, parse_row, ParseError};
use create_image::record::ParticleRecord;

fn record(line: &str) -> ParticleRecord {
    parse_row(line, 0).expect("row should parse")
}

#[test]
fn well_formed_rows_parse_in_order() {
    let input = "0\tA\t1.5\t-2.25\t0.0\t0.1\t0.2\t0.3\t4.5\t2\t[1, 2]\n\
                 1\tB\t-7.0\t8.0\t0.0\t0.0\t0.0\t0.0\t0.5\t0\t[]\n";
    let records = parse_file(input).expect("file should parse");
    assert_eq!(records.len(), 2);
    assert_eq!(records[0].id, 0);
    assert_eq!(records[0].cell_type, "A");
    assert_eq!(records[0].x, "1.5");
    assert_eq!(records[0].y, "-2.25");
    assert_eq!(records[0].r, "4.5");
    assert_eq!(records[0].contact, 2);
    assert_eq!(records[0].contact_ids, "[1, 2]");
    assert_eq!(records[1].id, 1);
    assert_eq!(records[1].cell_type, "B");
    assert_eq!(records[1].x, "-7.0");
    assert_eq!(records[1].contact, 0);
}

#[test]
fn missing_trailing_newline_is_accepted() {
    let input = "5\tA\t1\t2\t3\t4\t5\t6\t7\t8\t9";
    let records = parse_file(input).expect("file should parse");
    assert_eq!(records.len(), 1);
    assert_eq!(records[0].id, 5);
    assert_eq!(records[0].contact, 8);
}

#[test]
fn carriage_return_line_endings_are_accepted() {
    let input = "0\tA\t1.5\t2\t3\t4\t5\t6\t7\t8\t[1]\r\n\
                 1\tB\t1\t2\t3\t4\t5\t6\t7\t8\t[2]\r\n";
    let records = parse_file(input).expect("CRLF file should parse");
    assert_eq!(records.len(), 2);
    assert_eq!(records[0].contact_ids, "[1]");
    assert_eq!(records[1].contact_ids, "[2]");
}

#[test]
fn empty_file_yields_no_records() {
    let records = parse_file("").expect("empty file should parse");
    assert_eq!(records.len(), 0);
}

#[test]
fn too_few_fields_fail_the_whole_file() {
    let input = "0\tA\t1\t2\t3\t4\t5\t6\t7\t8\n\
                 1\tB\t1\t2\t3\t4\t5\t6\t7\t8\t9\n";
    let err = parse_file(input).expect_err("ten fields must fail");
    assert_eq!(err, ParseError::WrongFieldCount { row: 0, found: 10 });
}

#[test]
fn too_many_fields_fail_the_whole_file() {
    let input = "0\tA\t1\t2\t3\t4\t5\t6\t7\t8\t9\textra\n";
    let err = parse_file(input).expect_err("twelve fields must fail");
    assert_eq!(err, ParseError::WrongFieldCount { row: 0, found: 12 });
}

#[test]
fn later_bad_row_reports_its_position() {
    let input = "0\tA\t1\t2\t3\t4\t5\t6\t7\t8\t9\n\
                 1\tB\t1\t2\t3\t4\t5\t6\t7\n";
    let err = parse_file(input).expect_err("short second row must fail");
    assert_eq!(err, ParseError::WrongFieldCount { row: 1, found: 9 });
}

#[test]
fn blank_middle_line_fails() {
    let input = "0\tA\t1\t2\t3\t4\t5\t6\t7\t8\t9\n\n\
                 1\tB\t1\t2\t3\t4\t5\t6\t7\t8\t9\n";
    let err = parse_file(input).expect_err("blank line must fail");
    assert_eq!(err, ParseError::WrongFieldCount { row: 1, found: 1 });
}

#[test]
fn non_numeric_id_fails() {
    let err = parse_row("x\tA\t1\t2\t3\t4\t5\t6\t7\t8\t9", 3).expect_err("bad id");
    assert_eq!(err, ParseError::BadNumber { row: 3, col: 0 });
}

#[test]
fn non_numeric_coordinate_fails() {
    let err = parse_row("0\tA\tabc\t2\t3\t4\t5\t6\t7\t8\t9", 0).expect_err("bad x");
    assert_eq!(err, ParseError::BadNumber { row: 0, col: 2 });
    let err = parse_row("0\tA\t1\t2\t3\t4\t5\t6\t1.2.3\t8\t9", 0).expect_err("bad r");
    assert_eq!(err, ParseError::BadNumber { row: 0, col: 8 });
}

#[test]
fn non_numeric_contact_count_fails() {
    let err = parse_row("0\tA\t1\t2\t3\t4\t5\t6\t7\t8.5\t9", 0).expect_err("bad contact");
    assert_eq!(err, ParseError::BadNumber { row: 0, col: 9 });
}

#[test]
fn negative_id_fails() {
    let err = parse_row("-1\tA\t1\t2\t3\t4\t5\t6\t7\t8\t9", 0).expect_err("negative id");
    assert_eq!(err, ParseError::BadNumber { row: 0, col: 0 });
}

#[test]
fn id_at_the_unsigned_limit_parses() {
    let rec = record("4294967295\tA\t1\t2\t3\t4\t5\t6\t7\t8\t9");
    assert_eq!(rec.id, 4294967295);
}

#[test]
fn id_above_the_unsigned_limit_fails() {
    let err = parse_row("4294967296\tA\t1\t2\t3\t4\t5\t6\t7\t8\t9", 0).expect_err("overflow");
    assert_eq!(err, ParseError::BadNumber { row: 0, col: 0 });
}

#[test]
fn id_with_plus_sign_and_leading_zeros_parses() {
    let rec = record("+0007\tA\t1\t2\t3\t4\t5\t6\t7\t8\t9");
    assert_eq!(rec.id, 7);
}

#[test]
fn float_keyword_coordinates_parse() {
    let rec = record("0\tA\tinf\t-inf\t+infinity\tNaN\tnan\tINF\t7\t8\t9");
    assert_eq!(rec.x, "inf");
    assert_eq!(rec.y, "-inf");
    assert_eq!(rec.z, "+infinity");
    assert_eq!(rec.vx, "NaN");
}

#[test]
fn float_edge_forms_parse() {
    let rec = record("0\tA\t5.\t.5\t2.5E-10\t1e5\t+3\t-0.0\t0007.25\t8\t9");
    assert_eq!(rec.x, "5.");
    assert_eq!(rec.y, ".5");
    assert_eq!(rec.z, "2.5E-10");
    assert_eq!(rec.vx, "1e5");
    assert_eq!(rec.r, "0007.25");
}

#[test]
fn float_malformed_forms_fail() {
    for bad in [".", "1.2.3", "e5", "1e", "1e+", "--1", "", "in", "infinit", "0x1", "1 "] {
        let line = format!("0\tA\t{}\t2\t3\t4\t5\t6\t7\t8\t9", bad);
        let err = parse_row(&line, 0).expect_err("malformed float");
        assert_eq!(err, ParseError::BadNumber { row: 0, col: 2 });
    }
}

#[test]
fn parsed_coordinates_convert_to_machine_floats() {
    let rec = record("0\tA\t1.5\t-2.25\t3\t4\t5\t6\t2.5E-10\t8\t9");
    assert_eq!(rec.x.parse::<f32>().unwrap(), 1.5);
    assert_eq!(rec.y.parse::<f32>().unwrap(), -2.25);
    assert_eq!(rec.r.parse::<f32>().unwrap(), 2.5e-10);
}

#[test]
fn free_text_columns_are_unconstrained() {
    let rec = record("0\tweird type 1.2.3\t1\t2\t3\t4\t5\t6\t7\t8\tanything at all");
    assert_eq!(rec.cell_type, "weird type 1.2.3");
    assert_eq!(rec.contact_ids, "anything at all");
}
