use textutils::counts::{count, FileInfo};
use textutils::render::{push_all, push_right_justified};
use textutils::options::counting_options;
use textutils::report::{file_row, total_row, Report, Selection};

const DEFAULT: Selection = Selection { lines: true, words: true, bytes: true, chars: false };
const NOTHING: Selection = Selection { lines: false, words: false, bytes: false, chars: false };

fn counts_of(num_lines: usize, num_words: usize, num_bytes: usize, num_chars: usize) -> FileInfo {
    FileInfo { num_lines, num_words, num_bytes, num_chars }
}

fn justified(n: usize, width: usize) -> String {
    let mut out = Vec::new();
    push_right_justified(&mut out, n, width);
    String::from_utf8(out).unwrap()
}

fn text(row: Vec<u8>) -> String {
    String::from_utf8(row).unwrap()
}

#[test]
fn numbers_are_padded_on_the_left() {
    assert_eq!(justified(0, 8), "       0");
    assert_eq!(justified(7, 8), "       7");
    assert_eq!(justified(10, 8), "      10");
    assert_eq!(justified(1234567, 8), " 1234567");
    assert_eq!(justified(12345678, 8), "12345678");
    assert_eq!(justified(42, 6), "    42");
    assert_eq!(justified(42, 2), "42");
    assert_eq!(justified(9, 1), "9");
    assert_eq!(justified(5, 0), "5");
}

#[test]
fn numbers_wider_than_the_field_are_not_cut() {
    assert_eq!(justified(123456789, 8), "123456789");
    assert_eq!(justified(1000, 3), "1000");
    assert_eq!(justified(usize::MAX, 8), usize::MAX.to_string());
    assert_eq!(justified(usize::MAX, 0), format!("{}", usize::MAX));
}

#[test]
fn numbers_are_written_as_std_writes_them() {
    let mut n: usize = 1;
    for _ in 0..usize::BITS {
        for m in [n - 1, n, n + 1] {
            assert_eq!(justified(m, 8), format!("{m:>8}"));
            assert_eq!(justified(m, 6), format!("{m:>6}"));
            assert_eq!(justified(m, 25), format!("{m:>25}"));
        }
        n = n.wrapping_mul(2);
    }
    for m in [9, 10, 11, 99, 100, 101, 999_999, 1_000_000, 99_999_999, 100_000_000] {
        assert_eq!(justified(m, 8), format!("{m:>8}"));
    }
}

#[test]
fn a_field_is_appended_to_what_is_there() {
    let mut out = b"x".to_vec();
    push_right_justified(&mut out, 12, 4);
    push_right_justified(&mut out, 3, 4);
    assert_eq!(out, b"x  12   3");
    push_all(&mut out, b"\tyz");
    push_all(&mut out, b"");
    assert_eq!(out, b"x  12   3\tyz");
}

#[test]
fn nothing_asked_for_shows_lines_words_and_bytes() {
    assert_eq!(NOTHING.resolve(), DEFAULT);
    assert_eq!(DEFAULT.resolve(), DEFAULT);
}

#[test]
fn what_was_asked_for_is_kept() {
    for bits in 1..16u8 {
        let asked = Selection {
            lines: bits & 1 != 0,
            words: bits & 2 != 0,
            bytes: bits & 4 != 0,
            chars: bits & 8 != 0,
        };
        assert_eq!(asked.resolve(), asked);
    }
    let chars = Selection { chars: true, ..NOTHING };
    assert_eq!(chars.resolve(), chars);
}

#[test]
fn row_with_no_flags_shows_lines_words_bytes_and_name() {
    let counted = counts_of(3, 12, 60, 58);
    let row = file_row(&counted, &NOTHING.resolve(), "notes.txt");
    assert_eq!(text(row), "       3      12      60 notes.txt\n");
}

#[test]
fn row_shows_what_is_selected_in_fixed_order() {
    let counted = counts_of(1, 22, 333, 4444);
    let only = |lines, words, bytes, chars| {
        text(file_row(&counted, &Selection { lines, words, bytes, chars }, "f"))
    };
    assert_eq!(only(true, false, false, false), "       1 f\n");
    assert_eq!(only(false, true, false, false), "      22 f\n");
    assert_eq!(only(false, false, true, false), "     333 f\n");
    assert_eq!(only(false, false, false, true), "    4444 f\n");
    assert_eq!(only(true, false, false, true), "       1    4444 f\n");
    assert_eq!(only(false, true, true, false), "      22     333 f\n");
    assert_eq!(only(true, true, true, true), "       1      22     333    4444 f\n");
    assert_eq!(only(false, false, false, false), " f\n");
}

#[test]
fn row_of_standard_input_has_no_name() {
    let counted = counts_of(1, 2, 3, 3);
    assert_eq!(text(file_row(&counted, &DEFAULT, "-")), "       1       2       3\n");
    assert_eq!(text(file_row(&counted, &DEFAULT, "--")), "       1       2       3 --\n");
    assert_eq!(text(file_row(&counted, &DEFAULT, "")), "       1       2       3 \n");
    assert_eq!(text(file_row(&counted, &DEFAULT, "-a")), "       1       2       3 -a\n");
}

#[test]
fn row_keeps_the_name_as_it_is() {
    let counted = count("zwei wörter\n".as_bytes());
    let row = file_row(&counted, &Selection { chars: true, ..DEFAULT }, "dir/über uns.txt");
    assert_eq!(text(row), "       1       2      13      12 dir/über uns.txt\n");
}

#[test]
fn two_files_get_a_total_row() {
    let first = count(b"one two\nthree\n");
    let second = count(b"four\n");
    let total = first.checked_add(&second).unwrap();
    let mut out = Vec::new();
    out.extend(file_row(&first, &DEFAULT, "a.txt"));
    out.extend(file_row(&second, &DEFAULT, "b.txt"));
    out.extend(total_row(&total, &DEFAULT, 2).unwrap());
    assert_eq!(
        text(out),
        "       2       3      14 a.txt\n       1       1       5 b.txt\n       3       4      19 total\n"
    );
}

#[test]
fn one_file_gets_no_total_row() {
    let total = counts_of(1, 2, 3, 3);
    assert_eq!(total_row(&total, &DEFAULT, 0), None);
    assert_eq!(total_row(&total, &DEFAULT, 1), None);
    assert_eq!(total_row(&total, &DEFAULT, 2), Some(b"       1       2       3 total\n".to_vec()));
    assert_eq!(
        total_row(&total, &Selection { chars: true, ..NOTHING }, usize::MAX),
        Some(b"       3 total\n".to_vec())
    );
}

#[test]
fn total_counts_files_that_failed_as_asked_for() {
    // Two streams were asked for and one could not be opened: it adds
    // nothing, and the total row is still printed.
    let only = count(b"a b c\n");
    let total = FileInfo::new().checked_add(&only).unwrap();
    assert_eq!(total_row(&total, &DEFAULT, 2), Some(b"       1       3       6 total\n".to_vec()));
}

#[test]
fn report_starts_with_the_default_selection() {
    let report = Report::new(NOTHING, 3);
    assert_eq!(report, Report { shown: DEFAULT, files: 3, total: counts_of(0, 0, 0, 0) });
    let chars = Selection { chars: true, ..NOTHING };
    assert_eq!(Report::new(chars, 1).shown, chars);
}

#[test]
fn report_of_two_files_ends_with_their_total() {
    let mut report = Report::new(NOTHING, 2);
    let mut out = Vec::new();
    out.extend(report.add(&count(b"one two\nthree\n"), "a.txt").unwrap());
    out.extend(report.add(&count(b"four\n"), "b.txt").unwrap());
    assert_eq!(report.total, counts_of(3, 4, 19, 19));
    out.extend(report.finish().unwrap());
    assert_eq!(
        text(out),
        "       2       3      14 a.txt\n       1       1       5 b.txt\n       3       4      19 total\n"
    );
}

#[test]
fn report_of_one_file_has_no_total() {
    let mut report = Report::new(DEFAULT, 1);
    assert_eq!(report.add(&counts_of(1, 2, 3, 3), "-"), Some(b"       1       2       3\n".to_vec()));
    assert_eq!(report.finish(), None);
    assert_eq!(Report::new(DEFAULT, 0).finish(), None);
}

#[test]
fn report_skips_what_was_not_added() {
    // Three streams were asked for; the second could not be opened.
    let mut report = Report::new(Selection { lines: true, ..NOTHING }, 3);
    report.add(&counts_of(2, 0, 0, 0), "first").unwrap();
    report.add(&counts_of(5, 0, 0, 0), "third").unwrap();
    assert_eq!(report.finish(), Some(b"       7 total\n".to_vec()));
}

#[test]
fn report_refuses_a_total_that_does_not_fit() {
    let mut report = Report::new(DEFAULT, 2);
    assert!(report.add(&counts_of(1, 1, usize::MAX, 1), "big").is_some());
    let before = report;
    assert_eq!(report.add(&counts_of(1, 1, 1, 1), "small"), None);
    assert_eq!(report, before);
    assert!(report.add(&counts_of(1, 1, 0, 1), "empty").is_some());
    assert_eq!(report.total, counts_of(2, 2, usize::MAX, 2));
}

#[test]
fn counting_a_file_with_no_flags() {
    let file = b"alpha beta gamma delta\none two three four\nred green blue ok\n";
    let counted = count(file);
    assert_eq!(counted, counts_of(3, 12, 60, 60));

    let asked = counting_options(false, false, false, false).unwrap();
    let mut report = Report::new(asked, 1);
    let row = report.add(&counted, "colours.txt").unwrap();
    assert_eq!(text(row), "       3      12      60 colours.txt\n");
    assert_eq!(report.finish(), None);
}
