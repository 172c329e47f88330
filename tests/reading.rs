use trfr::{Cause, ErrorKind, Flag, Reader, Record};

fn read_all(text: &str, flag: Flag) -> Vec<Result<Record, trfr::Error>> {
    let mut reader = Reader::from_reader(text, flag);
    let mut iter = reader.records();
    let mut out = Vec::new();
    while let Some(item) = iter.next_record() {
        out.push(item);
    }
    out
}

fn records(text: &str, flag: Flag) -> Vec<Record> {
    read_all(text, flag)
        .into_iter()
        .map(|r| r.expect("record"))
        .collect()
}

fn failure(text: &str, flag: Flag) -> (u64, Cause) {
    let items = read_all(text, flag);
    let last = items.into_iter().last().expect("an item");
    match last.expect_err("an error").into_kind() {
        ErrorKind::ReadRecord(line, inner) => {
            let cause = match *inner {
                ErrorKind::Int(_) => Cause::Int,
                ErrorKind::Float(_) => Cause::Float,
                ErrorKind::Parser(_) => Cause::Parser,
                other => panic!("unexpected inner error {:?}", other),
            };
            (line, cause)
        }
        other => panic!("unexpected error {:?}", other),
    }
}

const ROW: &str = "10 20 5 2.0 5 90 1 50 20 20 30 30 1.5 ACGTA ACGTAACGTA";

#[test]
fn classic_example_record() {
    let recs = records("Sequence: chr1\n10 20 5 2.0 5 90 1 50 20 20 30 30 1.5 ACGTA ACGTAACGTA\n", Flag::D);
    assert_eq!(recs.len(), 1);
    let r = &recs[0];
    assert_eq!(r.seq_id, "chr1");
    assert_eq!(r.start, 10);
    assert_eq!(r.end, 20);
    assert_eq!(r.period, 5);
    assert_eq!(r.copy_number, "2.0");
    assert_eq!(r.consensus_pattern_size, 5);
    assert_eq!(r.perc_matches, 90);
    assert_eq!(r.perc_indels, 1);
    assert_eq!(r.alignment_score, 50);
    assert_eq!((r.perc_a, r.perc_c, r.perc_g, r.perc_t), (20, 20, 30, 30));
    assert_eq!(r.entropy, "1.5");
    assert_eq!(r.consensus_pattern, "ACGTA");
    assert_eq!(r.repeat_seq, "ACGTAACGTA");
}

#[test]
fn ngs_flanking_columns_ignored() {
    let ngs = records(&format!("@read1\n{} AAAA CCCC\n", ROW), Flag::Ngs);
    let classic = records(&format!("Sequence: read1\n{}\n", ROW), Flag::D);
    assert_eq!(ngs.len(), 1);
    assert_eq!(ngs, classic);
    assert_eq!(ngs[0].seq_id, "read1");
    assert_eq!(ngs[0].repeat_seq, "ACGTAACGTA");
}

#[test]
fn ngs_too_few_columns_fails() {
    assert_eq!(failure(&format!("@read1\n{} AAAA\n", ROW), Flag::Ngs), (2, Cause::Parser));
    assert_eq!(failure(&format!("@read1\n{}\n", ROW), Flag::Ngs), (2, Cause::Parser));
}

#[test]
fn classic_many_rows_under_one_name() {
    let text = format!(
        "Tandem Repeats Finder Program\n\nSequence: chrX\n\nParameters: 2 7 7\n\n{}\n{}\n{}\n",
        "1 2 3 1.0 3 100 0 30 0 0 0 100 0.00 T TTT",
        "5 9 2 2.5 2 80 10 40 50 50 0 0 1.00 AC ACACA",
        "7 8 1 2 1 100 0 20 100 0 0 0 0 A AA"
    );
    let recs = records(&text, Flag::D);
    assert_eq!(recs.len(), 3);
    assert!(recs.iter().all(|r| r.seq_id == "chrX"));
    assert_eq!(recs.iter().map(|r| r.start).collect::<Vec<_>>(), vec![1, 5, 7]);
    assert_eq!(recs[2].copy_number, "2");
}

#[test]
fn new_name_relabels_later_rows() {
    let text = format!("Sequence: a\n{}\nSequence: b\n{}\n{}\n", ROW, ROW, ROW);
    let recs = records(&text, Flag::D);
    let names: Vec<&str> = recs.iter().map(|r| r.seq_id.as_str()).collect();
    assert_eq!(names, vec!["a", "b", "b"]);
}

#[test]
fn ngs_new_name_relabels_later_rows() {
    let text = format!("@r1\n{} x y\n@ r2 \n{} x y\n", ROW, ROW);
    let recs = records(&text, Flag::Ngs);
    let names: Vec<&str> = recs.iter().map(|r| r.seq_id.as_str()).collect();
    assert_eq!(names, vec!["r1", "r2"]);
}

#[test]
fn empty_input_no_records() {
    assert!(read_all("", Flag::D).is_empty());
    assert!(read_all("", Flag::Ngs).is_empty());
    assert!(read_all("\n  \n", Flag::D).is_empty());
}

#[test]
fn wrong_field_count_is_parser_error() {
    assert_eq!(failure("Sequence: s\n1 2 3\n", Flag::D), (2, Cause::Parser));
    let extra = format!("Sequence: s\n{} EXTRA\n", ROW);
    assert_eq!(failure(&extra, Flag::D), (2, Cause::Parser));
    // a double space makes an empty field, so the count is off
    let double = "Sequence: s\n10  20 5 2.0 5 90 1 50 20 20 30 30 1.5 ACGTA ACGTAACGTA\n";
    assert_eq!(failure(double, Flag::D), (2, Cause::Parser));
}

#[test]
fn integer_field_error_kind() {
    let bad = "Sequence: s\n10 x 5 2.0 5 90 1 50 20 20 30 30 1.5 ACGTA ACGTAACGTA\n";
    assert_eq!(failure(bad, Flag::D), (2, Cause::Int));
    let overflow = "Sequence: s\n10 20 5 2.0 5 300 1 50 20 20 30 30 1.5 ACGTA ACGTAACGTA\n";
    assert_eq!(failure(overflow, Flag::D), (2, Cause::Int));
    let negative = "Sequence: s\n-10 20 5 2.0 5 90 1 50 20 20 30 30 1.5 ACGTA ACGTAACGTA\n";
    assert_eq!(failure(negative, Flag::D), (2, Cause::Int));
}

#[test]
fn float_field_error_kind() {
    let bad = "Sequence: s\n10 20 5 two 5 90 1 50 20 20 30 30 1.5 ACGTA ACGTAACGTA\n";
    assert_eq!(failure(bad, Flag::D), (2, Cause::Float));
    let bad_entropy = "Sequence: s\n10 20 5 2.0 5 90 1 50 20 20 30 30 1.5.1 ACGTA ACGTAACGTA\n";
    assert_eq!(failure(bad_entropy, Flag::D), (2, Cause::Float));
}

#[test]
fn first_failing_field_decides_kind() {
    let both = "Sequence: s\n10 20 5 x 5 y 1 50 20 20 30 30 1.5 ACGTA ACGTAACGTA\n";
    assert_eq!(failure(both, Flag::D), (2, Cause::Float));
}

#[test]
fn earlier_records_kept_before_error() {
    let text = format!("Sequence: s\n{}\n{}\n10 20\n{}\n", ROW, ROW, ROW);
    let items = read_all(&text, Flag::D);
    assert_eq!(items.len(), 3);
    assert!(items[0].is_ok() && items[1].is_ok());
    assert_eq!(items[0].as_ref().unwrap().start, 10);
    assert_eq!(failure(&text, Flag::D), (4, Cause::Parser));
}

#[test]
fn float_grammar_accepts_documented_forms() {
    for f in ["2", "2.", ".5", "+1.5", "-0.25", "1e5", "1.5E-3", "inf", "-Infinity", "NaN"] {
        let line = format!("Sequence: s\n10 20 5 {} 5 90 1 50 20 20 30 30 1.5 A AA\n", f);
        let recs = records(&line, Flag::D);
        assert_eq!(recs[0].copy_number, f);
        assert!(f.parse::<f32>().is_ok());
    }
    for f in [".", "e5", "1e", "1.5e+", "in", "1,5", "0x10"] {
        let line = format!("Sequence: s\n10 20 5 {} 5 90 1 50 20 20 30 30 1.5 A AA\n", f);
        assert_eq!(failure(&line, Flag::D), (2, Cause::Float));
        assert!(f.parse::<f32>().is_err());
    }
}

#[test]
fn integer_parse_plus_sign_and_limits() {
    let line = "Sequence: s\n+10 20 65535 2 65535 255 0 4294967295 0 0 0 0 0 A AA\n";
    let recs = records(line, Flag::D);
    assert_eq!(recs[0].start, 10);
    assert_eq!(recs[0].period, 65535);
    assert_eq!(recs[0].alignment_score, 4294967295);
    let over = "Sequence: s\n10 20 65536 2 1 1 0 1 0 0 0 0 0 A AA\n";
    assert_eq!(failure(over, Flag::D), (2, Cause::Int));
}

#[test]
fn error_is_terminal() {
    let text = format!("Sequence: s\nbad line\n{}\n", ROW);
    let items = read_all(&text, Flag::D);
    assert_eq!(items.len(), 1);
    assert!(items[0].is_err());
}

#[test]
fn line_numbers_count_every_line() {
    let text = format!("Sequence: s\n{}\n\n{}\n{}\n1 2\n", ROW, ROW, ROW);
    assert_eq!(failure(&text, Flag::D), (6, Cause::Parser));
}

#[test]
fn identifier_prefix_stripped_once() {
    let recs = records(&format!("Sequence: Sequence: x \n{}\n", ROW), Flag::D);
    assert_eq!(recs[0].seq_id, "Sequence: x");
    let recs = records(&format!("Sequence:y\n{}\n", ROW), Flag::D);
    assert_eq!(recs[0].seq_id, "Sequence:y");
    let recs = records(&format!("@a@b\n{} x y\n", ROW), Flag::Ngs);
    assert_eq!(recs[0].seq_id, "a@b");
}

#[test]
fn records_without_identifier_have_empty_name() {
    let recs = records(&format!("{}\n", ROW), Flag::D);
    assert_eq!(recs[0].seq_id, "");
}

#[test]
fn last_line_without_newline_and_crlf() {
    let recs = records(&format!("Sequence: s\r\n{}\r\n{}", ROW, ROW), Flag::D);
    assert_eq!(recs.len(), 2);
    assert_eq!(recs[0].seq_id, "s");
    assert_eq!(recs[0].repeat_seq, "ACGTAACGTA");
    assert_eq!(recs[1].repeat_seq, "ACGTAACGTA");
}

#[test]
fn owned_iterator_reads_the_same() {
    let text = format!("Sequence: s\n{}\n{}\n", ROW, ROW);
    let mut iter = Reader::from_reader(&text, Flag::D).into_records();
    let mut n = 0;
    while let Some(item) = iter.next_record() {
        assert_eq!(item.unwrap().seq_id, "s");
        n += 1;
    }
    assert_eq!(n, 2);
    let mut reader = iter.into_reader();
    assert!(reader.records().next_record().is_none());
}

#[test]
fn error_kind_accessors() {
    let text = "Sequence: s\n1 2\n";
    let err = read_all(text, Flag::D).pop().unwrap().unwrap_err();
    assert!(matches!(err.kind(), ErrorKind::ReadRecord(2, _)));
    let made = trfr::Error::new(ErrorKind::Parser("x".to_string()));
    assert!(matches!(made.kind(), ErrorKind::Parser(m) if m == "x"));
}

#[test]
fn borrowed_iterator_reader_access() {
    let text = format!("Sequence: s\n{}\n{}\n", ROW, ROW);
    let mut reader = Reader::from_reader(&text, Flag::D);
    let mut iter = reader.records();
    assert!(iter.next_record().unwrap().is_ok());
    let inner = iter.reader_mut();
    assert!(inner.records().next_record().unwrap().is_ok());
    let _ = iter.reader();
    assert!(iter.next_record().is_none());
    let mut owned = Reader::from_reader(&text, Flag::D).into_records();
    assert!(owned.reader_mut().records().next_record().is_some());
    let _ = owned.reader();
    assert!(owned.next_record().is_some());
    assert!(owned.next_record().is_none());
}
